use vstd::prelude::*;

verus! {

/// The ways an acquisition can fail.
#[derive(Clone, Copy, Debug, Eq, Hash, Ord, PartialEq, PartialOrd)]
pub enum AsyncMutexError<E> {
    /// The handoff sender was dropped before it delivered the resource.
    AwakenerCanceled,
    /// The cell is poisoned: its resource was consumed by a failed holder.
    ResourceBroken,
    /// The continuation failed with this payload.
    Function(E),
}

impl<E> From<E> for AsyncMutexError<E> {
    fn from(e: E) -> (r: AsyncMutexError<E>)
        ensures
            r == AsyncMutexError::Function(e),
    {
        AsyncMutexError::Function(e)
    }
}

impl<E> vstd::std_specs::convert::FromSpecImpl<E> for AsyncMutexError<E> {
    open spec fn obeys_from_spec() -> bool {
        true
    }

    open spec fn from_spec(e: E) -> AsyncMutexError<E> {
        AsyncMutexError::Function(e)
    }
}

} // verus!
