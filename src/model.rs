//! The mathematical model of the resource cell and its transitions.

use futures::sync::oneshot::Sender;
use vstd::prelude::*;

verus! {

/// What the cell holds, as a value.
#[verifier::reject_recursive_types(T)]
pub enum CellView<T> {
    /// Poisoned for good.
    Broken,
    /// Held by some acquirer; the waiters' senders in arrival order.
    Held(Seq<Sender<T>>),
    /// Available, owned by the cell.
    Free(T),
}

/// One send made by a release: the waiter's sender, the value offered to
/// it and what `send` returned (`Ok`: delivered; `Err`: the receiver was
/// gone and the value came back).
#[verifier::reject_recursive_types(T)]
pub struct SendRecord<T> {
    pub to: Sender<T>,
    pub value: T,
    pub result: Result<(), T>,
}

/// Whether the last of the sends delivered the value.
pub open spec fn delivered_last<T>(sends: Seq<SendRecord<T>>) -> bool {
    sends.len() > 0 && sends[sends.len() - 1].result is Ok
}

/// The number of waiters that a release passed over: every send but a
/// delivering last one.
pub open spec fn refused<T>(sends: Seq<SendRecord<T>>) -> nat {
    if delivered_last(sends) {
        (sends.len() - 1) as nat
    } else {
        sends.len()
    }
}

/// `v1` is the cell after the holder released `t` from `v` by these sends:
/// `t` was offered to the queued senders from the front, in order; each
/// send but the last handed `t` back; and either the last send delivered
/// `t` and the cell stays held with the senders behind it, or every queued
/// sender handed `t` back and the cell is free with `t`.
pub open spec fn released<T>(
    v: CellView<T>,
    t: T,
    v1: CellView<T>,
    sends: Seq<SendRecord<T>>,
) -> bool {
    match v {
        CellView::Held(q) => {
            &&& sends.len() <= q.len()
            &&& forall|j: int|
                0 <= j < sends.len() ==> (#[trigger] sends[j]).to == q[j] && sends[j].value == t
                    && (sends[j].result matches Err(back) ==> back == t)
            &&& forall|j: int| 0 <= j < sends.len() - 1 ==> (#[trigger] sends[j]).result is Err
            &&& if delivered_last(sends) {
                v1 == CellView::Held(q.skip(sends.len() as int))
            } else {
                sends.len() == q.len() && v1 == CellView::Free(t)
            }
        },
        _ => false,
    }
}

/// The number of sends that delivered their value.
pub open spec fn delivered<T>(sends: Seq<SendRecord<T>>) -> nat
    decreases sends.len(),
{
    if sends.len() == 0 {
        0
    } else {
        delivered(sends.drop_last()) + if sends[sends.len() - 1].result is Ok {
            1nat
        } else {
            0nat
        }
    }
}

/// The cell after an acquirer first looks at it, `s` being the sender that
/// it queues when the resource is held.
pub open spec fn after_acquire<T>(v: CellView<T>, s: Sender<T>) -> CellView<T> {
    match v {
        CellView::Free(_) => CellView::Held(Seq::empty()),
        CellView::Held(q) => CellView::Held(q.push(s)),
        _ => v,
    }
}

/// The cell after the holder releases `t`, when the first `k` waiters had
/// gone (their receivers dropped) and the next one, if any, took `t`.
pub open spec fn after_release<T>(v: CellView<T>, t: T, k: nat) -> CellView<T> {
    match v {
        CellView::Held(q) => if k < q.len() {
            CellView::Held(q.skip(k as int + 1))
        } else {
            CellView::Free(t)
        },
        _ => v,
    }
}

/// One transition of the cell, as the functions of this crate make it.
#[verifier::reject_recursive_types(T)]
pub enum Step<T> {
    /// An acquirer looks at the cell, queueing this sender if it is held.
    Acquire(Sender<T>),
    /// The holder releases the resource, the first `k` waiters having gone.
    Release(T, nat),
    /// The holder fails and loses the resource.
    Poison,
}

/// The cell after one step. A release or a poisoning comes from the holder,
/// so it changes a held cell only.
pub open spec fn after_step<T>(v: CellView<T>, st: Step<T>) -> CellView<T> {
    match st {
        Step::Acquire(s) => after_acquire(v, s),
        Step::Release(t, k) => after_release(v, t, k),
        Step::Poison => if v is Held {
            CellView::Broken
        } else {
            v
        },
    }
}

/// The cell after a run of steps.
pub open spec fn run<T>(v: CellView<T>, steps: Seq<Step<T>>) -> CellView<T>
    decreases steps.len(),
{
    if steps.len() == 0 {
        v
    } else {
        run(after_step(v, steps[0]), steps.drop_first())
    }
}

/// The senders that a run of steps puts in the queue, in arrival order.
pub open spec fn arrivals<T>(v: CellView<T>, steps: Seq<Step<T>>) -> Seq<Sender<T>>
    decreases steps.len(),
{
    if steps.len() == 0 {
        Seq::empty()
    } else {
        let rest = arrivals(after_step(v, steps[0]), steps.drop_first());
        match (v, steps[0]) {
            (CellView::Held(_), Step::Acquire(s)) => seq![s] + rest,
            _ => rest,
        }
    }
}

/// `q` is the tail of `xs`.
pub open spec fn is_tail<A>(q: Seq<A>, xs: Seq<A>) -> bool {
    q.len() <= xs.len() && q == xs.skip(xs.len() - q.len())
}

/// How one step changes the number of acquirers that hold the resource:
/// taking a free resource adds one; a release that serves no waiter, or a
/// poisoning, removes one; a release that serves a waiter passes it on.
pub open spec fn holder_change<T>(v: CellView<T>, st: Step<T>) -> int {
    match (v, st) {
        (CellView::Free(_), Step::Acquire(_)) => 1,
        (CellView::Held(q), Step::Release(_, k)) => if k < q.len() {
            0
        } else {
            -1
        },
        (CellView::Held(_), Step::Poison) => -1,
        _ => 0,
    }
}

/// The number of acquirers that hold the resource after a run of steps
/// from a cell that nobody holds.
pub open spec fn holders<T>(v: CellView<T>, steps: Seq<Step<T>>) -> int
    decreases steps.len(),
{
    if steps.len() == 0 {
        0
    } else {
        holder_change(v, steps[0]) + holders(after_step(v, steps[0]), steps.drop_first())
    }
}

/// The values handed to acquirers along a run, in the order they got them:
/// a free resource taken by an acquirer, or a released one that a waiter
/// was served.
pub open spec fn grants<T>(v: CellView<T>, steps: Seq<Step<T>>) -> Seq<T>
    decreases steps.len(),
{
    if steps.len() == 0 {
        Seq::empty()
    } else {
        let rest = grants(after_step(v, steps[0]), steps.drop_first());
        match (v, steps[0]) {
            (CellView::Free(x), Step::Acquire(_)) => seq![x] + rest,
            (CellView::Held(q), Step::Release(t, k)) => if k < q.len() {
                seq![t] + rest
            } else {
                rest
            },
            _ => rest,
        }
    }
}

/// Every holder along the run releases one more than the value it was
/// handed (`last` being the value handed out most recently).
pub open spec fn counts_up(v: CellView<int>, last: int, steps: Seq<Step<int>>) -> bool
    decreases steps.len(),
{
    if steps.len() == 0 {
        true
    } else {
        let v1 = after_step(v, steps[0]);
        let rest = steps.drop_first();
        match (v, steps[0]) {
            (CellView::Free(x), Step::Acquire(_)) => counts_up(v1, x, rest),
            (CellView::Held(_), Step::Release(t, _)) => t == last + 1 && counts_up(v1, t, rest),
            _ => counts_up(v1, last, rest),
        }
    }
}

} // verus!
