//! Global laws of the queue's data path, stated over an abstract log.
//!
//! A log records, for one queue, everything that was successfully pushed
//! (in arrival order), everything that was delivered to consumers (in
//! delivery order), and the values still live. Each log step is the shape
//! that the corresponding queue operation ensures on `items`:
//! a committing push appends to the live region (`try_push`, `poll_push`),
//! a delivering pop removes the oldest live value (`try_pop`, `poll_pop`),
//! and a cancellation leaves the data path untouched (`cancel_push`,
//! `cancel_pop`).

use vstd::prelude::*;

verus! {

/// One data-path event of a queue, as seen by the log.
pub enum LogStep<T> {
    /// A push that committed the carried value: a successful `try_push`,
    /// or the completing poll of a blocking push.
    Push(T),
    /// A pop that delivered a value: a successful `try_pop`, or the
    /// completing poll of a blocking pop.
    Pop,
    /// A cancelled blocking push or pop, which is pure on the data path.
    Cancel,
}

/// The data-path history of one queue.
pub struct QueueLog<T> {
    pub cap: nat,
    pub pushed: Seq<T>,
    pub popped: Seq<T>,
    pub items: Seq<T>,
}

/// The history of a queue that has seen no traffic.
pub open spec fn log_empty<T>(cap: nat) -> QueueLog<T> {
    QueueLog { cap, pushed: Seq::empty(), popped: Seq::empty(), items: Seq::empty() }
}

/// The log invariant: what was pushed is exactly what was delivered
/// followed by what is still live, and the live count respects the
/// capacity.
pub open spec fn log_wf<T>(l: QueueLog<T>) -> bool {
    &&& l.pushed == l.popped + l.items
    &&& l.items.len() <= l.cap
}

/// A push commits exactly when there is room, and then appends its value
/// to the live region; on a full queue it commits nothing.
pub open spec fn log_push<T>(l: QueueLog<T>, value: T) -> QueueLog<T> {
    if l.items.len() < l.cap {
        QueueLog {
            cap: l.cap,
            pushed: l.pushed.push(value),
            popped: l.popped,
            items: l.items.push(value),
        }
    } else {
        l
    }
}

/// A pop delivers exactly the oldest live value; on an empty queue it
/// delivers nothing.
pub open spec fn log_pop<T>(l: QueueLog<T>) -> QueueLog<T> {
    if l.items.len() > 0 {
        QueueLog {
            cap: l.cap,
            pushed: l.pushed,
            popped: l.popped.push(l.items[0]),
            items: l.items.drop_first(),
        }
    } else {
        l
    }
}

/// One step of the log.
pub open spec fn log_step<T>(l: QueueLog<T>, s: LogStep<T>) -> QueueLog<T> {
    match s {
        LogStep::Push(value) => log_push(l, value),
        LogStep::Pop => log_pop(l),
        LogStep::Cancel => l,
    }
}

/// The log after an arbitrary interleaving of steps.
pub open spec fn log_run<T>(l: QueueLog<T>, steps: Seq<LogStep<T>>) -> QueueLog<T>
    decreases steps.len(),
{
    if steps.len() == 0 {
        l
    } else {
        log_run(log_step(l, steps[0]), steps.drop_first())
    }
}

/// Every single step preserves the log invariant and the capacity.
pub proof fn lemma_log_step_preserves_wf<T>(l: QueueLog<T>, s: LogStep<T>)
    requires
        log_wf(l),
    ensures
        log_wf(log_step(l, s)),
        log_step(l, s).cap == l.cap,
{
    match s {
        LogStep::Push(value) => {
            if l.items.len() < l.cap {
                assert(l.pushed.push(value) =~= l.popped + l.items.push(value));
            }
        },
        LogStep::Pop => {
            if l.items.len() > 0 {
                assert(l.pushed =~= l.popped.push(l.items[0]) + l.items.drop_first());
            }
        },
        LogStep::Cancel => {},
    }
}

/// Every interleaving of steps preserves the log invariant and the
/// capacity.
pub proof fn lemma_log_run_preserves_wf<T>(l: QueueLog<T>, steps: Seq<LogStep<T>>)
    requires
        log_wf(l),
    ensures
        log_wf(log_run(l, steps)),
        log_run(l, steps).cap == l.cap,
    decreases steps.len(),
{
    if steps.len() > 0 {
        lemma_log_step_preserves_wf(l, steps[0]);
        lemma_log_run_preserves_wf(log_step(l, steps[0]), steps.drop_first());
    }
}

/// No loss, no duplication: across any interleaving of pushes, pops and
/// cancellations starting from an idle queue, the sequence of delivered
/// values is a prefix, in push order, of the sequence of committed
/// values. Nothing is delivered twice and nothing overtakes.
pub proof fn lemma_no_loss_no_duplication<T>(cap: nat, steps: Seq<LogStep<T>>)
    ensures
        ({
            let l = log_run(log_empty::<T>(cap), steps);
            log_wf(l) && l.popped.is_prefix_of(l.pushed)
        }),
{
    let l0 = log_empty::<T>(cap);
    assert(l0.pushed =~= l0.popped + l0.items);
    lemma_log_run_preserves_wf(l0, steps);
    let l = log_run(l0, steps);
    assert(l.popped =~= (l.popped + l.items).subrange(0, l.popped.len() as int));
}

/// The steps that push each value of `vs` in order.
pub open spec fn push_steps<T>(vs: Seq<T>) -> Seq<LogStep<T>> {
    Seq::new(vs.len(), |i: int| LogStep::Push(vs[i]))
}

/// `k` pop steps.
pub open spec fn pop_steps<T>(k: nat) -> Seq<LogStep<T>> {
    Seq::new(k, |i: int| LogStep::<T>::Pop)
}

/// Pushing a sequence that fits in the remaining room commits every value,
/// in order, after the values already live.
pub proof fn lemma_push_all<T>(l: QueueLog<T>, vs: Seq<T>)
    requires
        l.items.len() + vs.len() <= l.cap,
    ensures
        log_run(l, push_steps(vs)).cap == l.cap,
        log_run(l, push_steps(vs)).popped == l.popped,
        log_run(l, push_steps(vs)).pushed == l.pushed + vs,
        log_run(l, push_steps(vs)).items == l.items + vs,
    decreases vs.len(),
{
    if vs.len() == 0 {
        assert(l.pushed + vs =~= l.pushed);
        assert(l.items + vs =~= l.items);
    } else {
        let l1 = log_step(l, push_steps(vs)[0]);
        assert(push_steps(vs).drop_first() =~= push_steps(vs.drop_first()));
        lemma_push_all(l1, vs.drop_first());
        assert(l1.pushed + vs.drop_first() =~= l.pushed + vs);
        assert(l1.items + vs.drop_first() =~= l.items + vs);
    }
}

/// Popping `k` times from a queue holding at least `k` values delivers
/// the `k` oldest live values, in ring order.
pub proof fn lemma_pop_all<T>(l: QueueLog<T>, k: nat)
    requires
        k <= l.items.len(),
    ensures
        log_run(l, pop_steps::<T>(k)).cap == l.cap,
        log_run(l, pop_steps::<T>(k)).pushed == l.pushed,
        log_run(l, pop_steps::<T>(k)).popped == l.popped + l.items.subrange(0, k as int),
        log_run(l, pop_steps::<T>(k)).items == l.items.subrange(k as int, l.items.len() as int),
    decreases k,
{
    if k == 0 {
        assert(l.popped + l.items.subrange(0, 0) =~= l.popped);
        assert(l.items.subrange(0, l.items.len() as int) =~= l.items);
    } else {
        let l1 = log_step(l, pop_steps::<T>(k)[0]);
        assert(pop_steps::<T>(k).drop_first() =~= pop_steps::<T>((k - 1) as nat));
        lemma_pop_all(l1, (k - 1) as nat);
        assert(l1.popped + l1.items.subrange(0, k - 1) =~= l.popped + l.items.subrange(
            0,
            k as int,
        ));
        assert(l1.items.subrange(k - 1, l1.items.len() as int) =~= l.items.subrange(
            k as int,
            l.items.len() as int,
        ));
    }
}

/// Round-trip FIFO: pushing `v1, ..., vk` (with `k` at most the capacity)
/// into an idle queue and then popping `k` times delivers exactly
/// `v1, ..., vk`, in order, leaving the queue empty.
pub proof fn lemma_round_trip_fifo<T>(cap: nat, vs: Seq<T>)
    requires
        vs.len() <= cap,
    ensures
        ({
            let l = log_run(log_run(log_empty::<T>(cap), push_steps(vs)), pop_steps::<T>(
                vs.len(),
            ));
            l.popped == vs && l.items.len() == 0
        }),
{
    let l0 = log_empty::<T>(cap);
    lemma_push_all(l0, vs);
    let l1 = log_run(l0, push_steps(vs));
    assert(l1.items =~= vs);
    lemma_pop_all(l1, vs.len());
    let l2 = log_run(l1, pop_steps::<T>(vs.len()));
    assert(l2.popped =~= vs);
}

} // verus!
