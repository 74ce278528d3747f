//! The one-shot channel of the `futures` crate, through which a releasing
//! holder hands the resource to the next waiter.

use vstd::prelude::*;

verus! {

/// `futures::sync::oneshot::Sender`, held opaque: the queue stores it and
/// hands it to `send`.
#[verifier::external_type_specification]
#[verifier::external_body]
#[verifier::reject_recursive_types(T)]
pub struct ExSender<T>(futures::sync::oneshot::Sender<T>);

/// `futures::sync::oneshot::Receiver`, held opaque: it is handed to the
/// acquirer that waits on it.
#[verifier::external_type_specification]
#[verifier::external_body]
#[verifier::reject_recursive_types(T)]
pub struct ExReceiver<T>(futures::sync::oneshot::Receiver<T>);

/// `futures::sync::oneshot::Canceled`, held opaque: a receiver's report that
/// its sender was dropped unsent.
#[verifier::external_type_specification]
#[verifier::external_body]
pub struct ExCanceled(futures::sync::oneshot::Canceled);

/// Relies on `futures::sync::oneshot::channel`: a fresh sender and its
/// receiver. Nothing is promised of the pair beyond its types.
pub assume_specification<T>[ futures::sync::oneshot::channel::<T> ]() -> (
    futures::sync::oneshot::Sender<T>,
    futures::sync::oneshot::Receiver<T>,
);

/// Relies on `futures::sync::oneshot::Sender::send`: when the value is not
/// delivered (the receiver is gone), it comes back unchanged in `Err`.
pub assume_specification<T>[ futures::sync::oneshot::Sender::<T>::send ](
    s: futures::sync::oneshot::Sender<T>,
    t: T,
) -> (r: Result<(), T>)
    ensures
        r matches Err(back) ==> back == t,
;

} // verus!
