//! The resource cell, its waiter queue and the handoff engine.

use crate::error::AsyncMutexError;
use crate::laws::lemma_released_step;
use crate::model::{
    after_acquire, after_release, after_step, refused, released, CellView,
    SendRecord, Step,
};
use futures::sync::oneshot::{channel, Canceled, Receiver, Sender};
use std::collections::VecDeque;
use vstd::prelude::*;

verus! {

/// The state of the cell. A transition takes the state out by swapping in
/// `Broken` and puts the new state back before it returns, with no call to
/// outside code in between, so nobody observes the placeholder.
#[verifier::reject_recursive_types(T)]
enum ResourceState<T> {
    Broken,
    Pending(VecDeque<Sender<T>>),
    Present(T),
}

/// The cell that all handles of one mutex share.
#[verifier::reject_recursive_types(T)]
pub struct Inner<T> {
    resource: ResourceState<T>,
    /// The sends made by the most recent release, in order.
    sends: Ghost<Seq<SendRecord<T>>>,
}

/// What an acquirer finds when it first looks at the cell.
#[derive(Debug)]
#[verifier::reject_recursive_types(T)]
pub enum Begin<T> {
    /// The resource was free: it is now the acquirer's.
    Acquired(T),
    /// The resource is held: the acquirer waits on this receiver.
    Queued(Receiver<T>),
    /// The cell is poisoned.
    Broken,
}

impl<T> View for Inner<T> {
    type V = CellView<T>;

    closed spec fn view(&self) -> CellView<T> {
        match &self.resource {
            ResourceState::Broken => CellView::Broken,
            ResourceState::Pending(q) => CellView::Held(q@),
            ResourceState::Present(t) => CellView::Free(*t),
        }
    }
}

impl<T> Inner<T> {
    /// The sends made by the most recent release, in order.
    pub closed spec fn last_sends(&self) -> Seq<SendRecord<T>> {
        self.sends@
    }

    /// A cell that holds `t`, free.
    pub fn new(t: T) -> (r: Inner<T>)
        ensures
            r@ == CellView::Free(t),
    {
        Inner { resource: ResourceState::Present(t), sends: Ghost(Seq::empty()) }
    }

    /// The first look of an acquirer at the cell. A free resource is taken
    /// (the cell becomes held, with nobody queued); a held one gets a new
    /// waiter at the back of the queue; a poisoned cell stays poisoned.
    pub fn begin_acquire(&mut self) -> (r: Begin<T>)
        ensures
            exists|s: Sender<T>| final(self)@ == after_acquire(old(self)@, s),
            old(self)@ matches CellView::Free(t) ==> r == Begin::<T>::Acquired(t),
            old(self)@ is Held ==> r is Queued,
            old(self)@ is Broken ==> r is Broken,
    {
        let mut state = ResourceState::Broken;
        std::mem::swap(&mut self.resource, &mut state);
        match state {
            ResourceState::Present(t) => {
                self.resource = ResourceState::Pending(VecDeque::new());
                proof {
                    let s: Sender<T> = arbitrary();
                    assert(final(self)@ == after_acquire(old(self)@, s));
                }
                Begin::Acquired(t)
            },
            ResourceState::Pending(mut awakeners) => {
                let (awakener, waiter) = channel::<T>();
                let ghost s = awakener;
                awakeners.push_back(awakener);
                self.resource = ResourceState::Pending(awakeners);
                proof {
                    assert(final(self)@ == after_acquire(old(self)@, s));
                }
                Begin::Queued(waiter)
            },
            ResourceState::Broken => {
                proof {
                    let s: Sender<T> = arbitrary();
                    assert(final(self)@ == after_acquire(old(self)@, s));
                }
                Begin::Broken
            },
        }
    }

    /// Takes the first waiter's sender out of a held cell's queue.
    fn take_waiter(&mut self) -> (r: Option<Sender<T>>)
        requires
            old(self)@ is Held,
        ensures
            final(self).sends == old(self).sends,
            old(self)@->Held_0.len() > 0 ==> r == Some(old(self)@->Held_0[0]) && final(self)@
                == CellView::Held(old(self)@->Held_0.drop_first()),
            old(self)@->Held_0.len() == 0 ==> r is None && final(self)@ == old(self)@,
    {
        let mut state = ResourceState::Broken;
        std::mem::swap(&mut self.resource, &mut state);
        match state {
            ResourceState::Pending(mut awakeners) => {
                let r = awakeners.pop_front();
                self.resource = ResourceState::Pending(awakeners);
                proof {
                    if old(self)@->Held_0.len() > 0 {
                        assert(self@->Held_0 =~= old(self)@->Held_0.drop_first());
                    }
                }
                r
            },
            other => {
                self.resource = other;
                None
            },
        }
    }

    /// What a release does with the result of one send to the first waiter,
    /// whose sender has already left the queue. Delivered: the release is
    /// over, the cell held with the waiters behind. Handed back: the value
    /// goes to the next waiter (it is returned to the caller for that), or,
    /// with no waiter left, back into the cell.
    pub fn settle(&mut self, sent: Result<(), T>) -> (r: Option<T>)
        requires
            old(self)@ is Held,
        ensures
            final(self).last_sends() == old(self).last_sends(),
            sent is Ok ==> r is None && final(self)@ == old(self)@,
            sent matches Err(back) ==> if old(self)@->Held_0.len() == 0 {
                r is None && final(self)@ == CellView::Free(back)
            } else {
                r == Some(back) && final(self)@ == old(self)@
            },
    {
        match sent {
            Ok(()) => None,
            Err(back) => {
                if self.has_waiters() {
                    Some(back)
                } else {
                    self.resource = ResourceState::Present(back);
                    None
                }
            },
        }
    }

    /// Whether a held cell has waiters queued.
    fn has_waiters(&self) -> (r: bool)
        requires
            self@ is Held,
        ensures
            r == (self@->Held_0.len() > 0),
    {
        match &self.resource {
            ResourceState::Pending(q) => q.len() > 0,
            _ => false,
        }
    }

    /// Hands `resource`, released by its holder, to the first waiter whose
    /// receiver is still there: it is offered to the queued senders from
    /// the front, and each one that hands it back (its receiver is gone) is
    /// dropped. With no such waiter the resource goes back into the cell.
    /// The sends made are recorded in `last_sends`.
    pub fn wakeup_next(&mut self, resource: T)
        requires
            old(self)@ is Held,
        ensures
            released(old(self)@, resource, final(self)@, final(self).last_sends()),
            final(self)@ == after_release(old(self)@, resource, refused(final(self).last_sends())),
    {
        let ghost q0 = self@->Held_0;
        self.sends = Ghost(Seq::empty());
        let mut t = resource;
        loop
            invariant
                old(self)@ == CellView::Held(q0),
                self@ is Held,
                t == resource,
                self.sends@.len() <= q0.len(),
                self@->Held_0 == q0.skip(self.sends@.len() as int),
                self.sends@.len() > 0 ==> self@->Held_0.len() > 0,
                forall|j: int|
                    0 <= j < self.sends@.len() ==> (#[trigger] self.sends@[j]).to == q0[j]
                        && self.sends@[j].value == resource && self.sends@[j].result == Err::<
                        (),
                        T,
                    >(resource),
            decreases self@->Held_0.len(),
        {
            let awakener = match self.take_waiter() {
                Some(s) => s,
                None => {
                    self.resource = ResourceState::Present(t);
                    proof {
                        lemma_released_step(old(self)@, resource, final(self)@, final(self).sends@);
                    }
                    return;
                },
            };
            let ghost to = awakener;
            let ghost before = self.sends@;
            proof {
                assert(to == q0[before.len() as int]);
                assert(self@->Held_0 =~= q0.skip(before.len() as int + 1));
            }
            let sent = awakener.send(t);
            let ghost record = SendRecord { to, value: resource, result: sent };
            proof {
                self.sends@ = self.sends@.push(record);
                assert(self.sends@[before.len() as int] == record);
                assert forall|j: int| 0 <= j < before.len() implies self.sends@[j] == before[j] by {}
            }
            match self.settle(sent) {
                None => {
                    proof {
                        if sent is Err {
                            assert(q0.skip(before.len() as int + 1).len() == 0);
                        }
                        lemma_released_step(old(self)@, resource, final(self)@, final(self).sends@);
                    }
                    return;
                },
                Some(back) => {
                    t = back;
                },
            }
        }
    }

    /// The holder lost the resource: the cell is poisoned for good, and the
    /// queued waiters' senders are dropped.
    pub fn poison(&mut self)
        requires
            old(self)@ is Held,
        ensures
            final(self)@ == after_step(old(self)@, Step::Poison),
            final(self)@ == CellView::<T>::Broken,
    {
        self.resource = ResourceState::Broken;
    }

    /// Whether some acquirer holds the resource.
    pub fn is_held(&self) -> (r: bool)
        ensures
            r == (self@ is Held),
    {
        match &self.resource {
            ResourceState::Pending(_) => true,
            _ => false,
        }
    }

    /// Whether the cell is poisoned.
    pub fn is_broken(&self) -> (r: bool)
        ensures
            r == (self@ is Broken),
    {
        match &self.resource {
            ResourceState::Broken => true,
            _ => false,
        }
    }

    /// Whether a suspended acquirer may go on waiting: it fails at once
    /// when the cell has been poisoned meanwhile.
    pub fn check_waiting<E>(&self) -> (r: Result<(), AsyncMutexError<E>>)
        ensures
            r == (if self@ is Broken {
                Err(AsyncMutexError::<E>::ResourceBroken)
            } else {
                Ok(())
            }),
    {
        if self.is_broken() {
            Err(AsyncMutexError::ResourceBroken)
        } else {
            Ok(())
        }
    }

    /// The end of a move continuation, given its outcome. A returned
    /// resource is released to the next waiter (as `wakeup_next` does); a
    /// lost one (`None`) poisons the cell. A failure is reported as
    /// `Function`.
    pub fn complete_move<O, E>(&mut self, outcome: Result<(T, O), (Option<T>, E)>) -> (r: Result<
        O,
        AsyncMutexError<E>,
    >)
        requires
            old(self)@ is Held,
        ensures
            outcome matches Ok((t, o)) ==> r == Ok::<O, AsyncMutexError<E>>(o) && released(
                old(self)@,
                t,
                final(self)@,
                final(self).last_sends(),
            ) && final(self)@ == after_release(old(self)@, t, refused(final(self).last_sends())),
            outcome matches Err((Some(t), e)) ==> r == Err::<O, AsyncMutexError<E>>(
                AsyncMutexError::Function(e),
            ) && released(old(self)@, t, final(self)@, final(self).last_sends()) && final(self)@
                == after_release(old(self)@, t, refused(final(self).last_sends())),
            outcome matches Err((None, e)) ==> r == Err::<O, AsyncMutexError<E>>(
                AsyncMutexError::Function(e),
            ) && final(self)@ == CellView::<T>::Broken,
    {
        match outcome {
            Ok((t, o)) => {
                self.wakeup_next(t);
                Ok(o)
            },
            Err((Some(t), e)) => {
                self.wakeup_next(t);
                Err(AsyncMutexError::Function(e))
            },
            Err((None, e)) => {
                self.poison();
                Err(AsyncMutexError::Function(e))
            },
        }
    }

    /// The end of a borrow continuation's work, given its outcome and the
    /// resource that it borrowed, kept aside while the work ran: the
    /// resource is released whatever the outcome, and a failure is reported
    /// as `Function`.
    pub fn complete_borrow<O, E>(&mut self, t: T, outcome: Result<O, E>) -> (r: Result<
        O,
        AsyncMutexError<E>,
    >)
        requires
            old(self)@ is Held,
        ensures
            released(old(self)@, t, final(self)@, final(self).last_sends()),
            final(self)@ == after_release(old(self)@, t, refused(final(self).last_sends())),
            outcome matches Ok(o) ==> r == Ok::<O, AsyncMutexError<E>>(o),
            outcome matches Err(e) ==> r == Err::<O, AsyncMutexError<E>>(
                AsyncMutexError::Function(e),
            ),
    {
        self.wakeup_next(t);
        match outcome {
            Ok(o) => Ok(o),
            Err(e) => Err(AsyncMutexError::Function(e)),
        }
    }

    /// The holder's acquisition was dropped before its work ended. A
    /// resource still in its custody (`Some`, the borrow case) is released;
    /// one that went down with the work (`None`, the move case) is lost,
    /// and the cell is poisoned so that its waiters fail instead of waiting
    /// forever.
    pub fn abandon(&mut self, kept: Option<T>)
        requires
            old(self)@ is Held,
        ensures
            kept matches Some(t) ==> released(old(self)@, t, final(self)@, final(self).last_sends())
                && final(self)@ == after_release(old(self)@, t, refused(final(self).last_sends())),
            kept is None ==> final(self)@ == CellView::<T>::Broken,
    {
        match kept {
            Some(t) => self.wakeup_next(t),
            None => self.poison(),
        }
    }
}

/// What a suspended acquirer makes of its handoff receiver: the resource
/// (`Some`), not yet (`None`), or a sender dropped without sending.
pub fn handoff_received<T, E>(polled: Result<Option<T>, Canceled>) -> (r: Result<
    Option<T>,
    AsyncMutexError<E>,
>)
    ensures
        polled matches Ok(x) ==> r == Ok::<Option<T>, AsyncMutexError<E>>(x),
        polled is Err ==> r == Err::<Option<T>, AsyncMutexError<E>>(
            AsyncMutexError::AwakenerCanceled,
        ),
{
    match polled {
        Ok(x) => Ok(x),
        Err(_) => Err(AsyncMutexError::AwakenerCanceled),
    }
}

} // verus!
