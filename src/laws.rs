//! Properties of the cell that hold over every run of transitions.

use crate::model::{
    after_release, after_step, arrivals, counts_up, delivered, delivered_last, grants, holders, is_tail,
    refused, released, run, CellView, SendRecord, Step,
};
use futures::sync::oneshot::Sender;
use vstd::prelude::*;

verus! {

proof fn lemma_broken_stays<T>(steps: Seq<Step<T>>)
    ensures
        run(CellView::Broken, steps) == CellView::<T>::Broken,
    decreases steps.len(),
{
    if steps.len() > 0 {
        lemma_broken_stays(steps.drop_first());
    }
}

/// Poisoning is absorbing: once the cell is broken, whatever acquirers,
/// holders or waiters do, every later acquirer finds it broken.
pub proof fn lemma_poison_absorbing<T>(steps: Seq<Step<T>>)
    ensures
        forall|i: int| 0 <= i <= steps.len() ==> run(CellView::Broken, #[trigger] steps.take(i))
            == CellView::<T>::Broken,
{
    assert forall|i: int| 0 <= i <= steps.len() implies run(
        CellView::Broken,
        #[trigger] steps.take(i),
    ) == CellView::<T>::Broken by {
        lemma_broken_stays(steps.take(i));
    }
}

proof fn lemma_tail_kept<T>(v: CellView<T>, xs: Seq<Sender<T>>, steps: Seq<Step<T>>)
    requires
        v matches CellView::Held(q) ==> is_tail(q, xs),
    ensures
        run(v, steps) matches CellView::Held(q) ==> is_tail(q, xs + arrivals(v, steps)),
    decreases steps.len(),
{
    if steps.len() > 0 {
        let v1 = after_step(v, steps[0]);
        let rest = steps.drop_first();
        let xs1 = match (v, steps[0]) {
            (CellView::Held(_), Step::Acquire(s)) => xs.push(s),
            _ => xs,
        };
        match (v, steps[0]) {
            (CellView::Held(q), Step::Acquire(s)) => {
                assert(q.push(s) =~= xs1.skip(xs1.len() - q.push(s).len()));
                assert(xs + arrivals(v, steps) =~= xs1 + arrivals(v1, rest));
            },
            (CellView::Held(q), Step::Release(t, k)) => {
                if k < q.len() {
                    assert(q.skip(k as int + 1) =~= xs.skip(xs.len() - q.skip(k as int + 1).len()));
                }
            },
            (CellView::Free(_), Step::Acquire(_)) => {
                assert(Seq::<Sender<T>>::empty() =~= xs.skip(xs.len() as int));
            },
            _ => {},
        }
        lemma_tail_kept(v1, xs1, rest);
    }
}

/// Waiters are served in arrival order: starting from a held cell with the
/// queue `q0`, after any run of steps the queue of a held cell is a tail of
/// `q0` followed by the senders that arrived meanwhile, in order. A release
/// only ever takes waiters from the front, so no waiter is served while one
/// that arrived before it is still queued.
pub proof fn lemma_fifo<T>(q0: Seq<Sender<T>>, steps: Seq<Step<T>>)
    ensures
        run(CellView::Held(q0), steps) matches CellView::Held(q) ==> is_tail(
            q,
            q0 + arrivals(CellView::Held(q0), steps),
        ),
{
    assert(q0 =~= q0.skip(0));
    lemma_tail_kept(CellView::Held(q0), q0, steps);
}

proof fn lemma_holders_from<T>(v: CellView<T>, steps: Seq<Step<T>>)
    ensures
        (if v is Held { 1int } else { 0int }) + holders(v, steps) == (if run(v, steps) is Held {
            1int
        } else {
            0int
        }),
    decreases steps.len(),
{
    if steps.len() > 0 {
        lemma_holders_from(after_step(v, steps[0]), steps.drop_first());
    }
}

/// Access is exclusive: along any run from a cell that nobody holds, the
/// resource has one holder while the cell is held and none otherwise, so
/// two acquirers never hold it at once.
pub proof fn lemma_one_holder<T>(v: CellView<T>, steps: Seq<Step<T>>)
    requires
        !(v is Held),
    ensures
        holders(v, steps) == (if run(v, steps) is Held {
            1int
        } else {
            0int
        }),
{
    lemma_holders_from(v, steps);
}

proof fn lemma_counts_from(v: CellView<int>, last: int, g: int, steps: Seq<Step<int>>)
    requires
        v matches CellView::Free(x) ==> x == g,
        v is Held ==> last == g - 1,
        counts_up(v, last, steps),
    ensures
        forall|i: int| 0 <= i < grants(v, steps).len() ==> #[trigger] grants(v, steps)[i] == g + i,
    decreases steps.len(),
{
    if steps.len() > 0 {
        let v1 = after_step(v, steps[0]);
        let rest = steps.drop_first();
        match (v, steps[0]) {
            (CellView::Free(x), Step::Acquire(_)) => {
                lemma_counts_from(v1, x, g + 1, rest);
                assert forall|i: int| 0 <= i < grants(v, steps).len() implies #[trigger] grants(
                    v,
                    steps,
                )[i] == g + i by {
                    if i > 0 {
                        assert(grants(v, steps)[i] == grants(v1, rest)[i - 1]);
                    }
                }
            },
            (CellView::Held(q), Step::Release(t, k)) => {
                if k < q.len() {
                    lemma_counts_from(v1, t, g + 1, rest);
                    assert forall|i: int| 0 <= i < grants(v, steps).len() implies #[trigger] grants(
                        v,
                        steps,
                    )[i] == g + i by {
                        if i > 0 {
                            assert(grants(v, steps)[i] == grants(v1, rest)[i - 1]);
                        }
                    }
                } else {
                    lemma_counts_from(v1, t, g, rest);
                    assert(grants(v, steps) == grants(v1, rest));
                }
            },
            _ => {
                lemma_counts_from(v1, last, g, rest);
                assert(grants(v, steps) == grants(v1, rest));
            },
        }
    }
}

/// Access is serialized: when a counter starts free at 0 and every holder
/// gives back one more than it was handed, the acquirers that get the
/// resource, one after another, observe 0, 1, 2, ... in that order.
pub proof fn lemma_serialized(steps: Seq<Step<int>>, last: int)
    requires
        counts_up(CellView::Free(0), last, steps),
    ensures
        forall|i: int| 0 <= i < grants(CellView::Free(0), steps).len() ==> #[trigger] grants(
            CellView::Free(0),
            steps,
        )[i] == i,
{
    lemma_counts_from(CellView::Free(0), last, 0, steps);
}

/// No lost wakeup: a release leaves the resource in the cell only after
/// it offered it to every queued waiter, in order, and each one handed it
/// back because its receiver was gone. Whenever a send delivers, the
/// release stops there, and that waiter is the first one whose send did
/// not hand the resource back.
pub proof fn lemma_no_lost_wakeup<T>(
    q: Seq<Sender<T>>,
    t: T,
    v1: CellView<T>,
    sends: Seq<SendRecord<T>>,
)
    requires
        released(CellView::Held(q), t, v1, sends),
    ensures
        v1 is Free ==> sends.len() == q.len() && forall|j: int|
            0 <= j < q.len() ==> (#[trigger] sends[j]).to == q[j] && sends[j].result == Err::<
                (),
                T,
            >(t),
        v1 is Held ==> sends.len() >= 1 && sends[sends.len() - 1].result is Ok && forall|j: int|
            0 <= j < sends.len() - 1 ==> (#[trigger] sends[j]).result == Err::<(), T>(t),
{
}

/// A waiter that went away before it was served leaves no trace: when the
/// send to it handed the resource back, the release ends exactly as a
/// release on the queue without it, with the same sends but that one.
pub proof fn lemma_cancelled_waiter_skipped<T>(
    q: Seq<Sender<T>>,
    i: int,
    s: Sender<T>,
    t: T,
    v1: CellView<T>,
    sends: Seq<SendRecord<T>>,
)
    requires
        0 <= i <= q.len(),
        released(CellView::Held(q.insert(i, s)), t, v1, sends),
        i < sends.len(),
        sends[i].result is Err,
    ensures
        released(CellView::Held(q), t, v1, sends.remove(i)),
{
    let qi = q.insert(i, s);
    let r = sends.remove(i);
    assert forall|j: int| 0 <= j < r.len() implies (#[trigger] r[j]).to == q[j] && r[j].value == t
        && (r[j].result matches Err(back) ==> back == t) by {
        if j < i {
            assert(r[j] == sends[j]);
        } else {
            assert(r[j] == sends[j + 1]);
        }
    }
    assert forall|j: int| 0 <= j < r.len() - 1 implies (#[trigger] r[j]).result is Err by {
        if j < i {
            assert(r[j] == sends[j]);
        } else {
            assert(r[j] == sends[j + 1]);
        }
    }
    if delivered_last(sends) {
        assert(i < sends.len() - 1);
        assert(r[r.len() - 1] == sends[sends.len() - 1]);
        assert(qi.skip(sends.len() as int) =~= q.skip(r.len() as int));
    } else {
        if r.len() > 0 {
            if i == sends.len() - 1 {
                assert(r[r.len() - 1] == sends[sends.len() - 2]);
            } else {
                assert(r[r.len() - 1] == sends[sends.len() - 1]);
            }
        }
    }
}

proof fn lemma_none_delivered<T>(sends: Seq<SendRecord<T>>)
    requires
        forall|j: int| 0 <= j < sends.len() ==> (#[trigger] sends[j]).result is Err,
    ensures
        delivered(sends) == 0,
    decreases sends.len(),
{
    if sends.len() > 0 {
        let d = sends.drop_last();
        assert forall|j: int| 0 <= j < d.len() implies (#[trigger] d[j]).result is Err by {
            assert(d[j] == sends[j]);
        }
        lemma_none_delivered(d);
    }
}

/// The resource is conserved by a release: afterwards exactly one instance
/// of it is accounted for, either back in the cell or delivered by exactly
/// one send; it is never dropped nor duplicated.
pub proof fn lemma_resource_conserved<T>(
    q: Seq<Sender<T>>,
    t: T,
    v1: CellView<T>,
    sends: Seq<SendRecord<T>>,
)
    requires
        released(CellView::Held(q), t, v1, sends),
    ensures
        (if v1 == CellView::Free(t) {
            1nat
        } else {
            0nat
        }) + delivered(sends) == 1,
{
    if sends.len() > 0 {
        let d = sends.drop_last();
        assert forall|j: int| 0 <= j < d.len() implies (#[trigger] d[j]).result is Err by {
            assert(d[j] == sends[j]);
        }
        lemma_none_delivered(d);
    }
}

/// A release, described by its sends, is the model's release step with the
/// passed-over waiters counted by `refused`.
pub proof fn lemma_released_step<T>(
    v: CellView<T>,
    t: T,
    v1: CellView<T>,
    sends: Seq<SendRecord<T>>,
)
    requires
        released(v, t, v1, sends),
    ensures
        v1 == after_release(v, t, refused(sends)),
{
    if delivered_last(sends) {
        assert(refused(sends) + 1 == sends.len());
    }
}

} // verus!
