//! A bounded FIFO queue for passing values between cooperative tasks.
//!
//! The data path is a ring buffer over `capacity` slots; a slot is live
//! exactly while it holds a value that has been pushed and not yet popped.
//! Two FIFO wait lists hold the tasks blocked on a full queue (producers)
//! and on an empty queue (consumers).
//!
//! Blocking push and pop are modelled as poll/cancel state machines: the
//! executor owns the actual suspension and re-polling, the queue decides
//! everything else. A poll either completes the operation, or parks the
//! caller on the corresponding wait list. Completing a push on a
//! previously empty queue wakes one consumer; completing a pop on a
//! previously full queue wakes one producer. Cancelling a parked operation
//! detaches the waiter without touching the ring state; if the waiter
//! already held a wake token, the token is forwarded so that no wake is
//! ever lost.
//!
//! The queue is created in two phases, mirroring a pinned, self-referential
//! in-place protocol: `new` builds the state with zero counters and empty
//! wait lists, and `finish_init` marks it ready at its final resting place.
//! Every operation demands a finished queue.

use vstd::prelude::*;
use crate::wait_list::{
    WaitList, WaitListModel, acknowledge_m, cancel_m, insert_m, wait_list_model_wf, wake_one_m,
};

verus! {

/// Position of the slot `k` steps after `tail` on a ring of `n` slots.
///
/// The conditional reset is the cheap equivalent of `(tail + k) % n` for
/// the index ranges the queue uses (`0 <= tail < n`, `0 <= k <= n`).
pub open spec fn ring_index(tail: int, k: int, n: int) -> int {
    if tail + k < n {
        tail + k
    } else {
        tail + k - n
    }
}

/// Whether slot `i` is live on a ring of `n` slots with `pending` live
/// slots starting at `tail`: the live region is `tail .. tail + pending`,
/// wrapped at `n`.
pub open spec fn slot_in_live_range(tail: int, pending: int, n: int, i: int) -> bool {
    if tail + pending <= n {
        tail <= i < tail + pending
    } else {
        i < tail + pending - n || tail <= i < n
    }
}

/// Abstract state of a queue: its capacity, the live values in ring order
/// (oldest first), the two wait lists, and whether the two-phase
/// construction has finished.
pub struct QueueModel<T> {
    pub cap: nat,
    pub items: Seq<T>,
    pub push_waiters: WaitListModel,
    pub pop_waiters: WaitListModel,
    pub inited: bool,
}

/// A bounded FIFO of `T` with blocking push/pop and fair FIFO wait lists.
pub struct Queue<T> {
    /// One slot per capacity unit; a slot holds `Some` exactly while live.
    storage: Vec<Option<T>>,
    /// Index of the next slot to write during a push.
    head: usize,
    /// Index of the next slot to read during a pop.
    tail: usize,
    /// Number of live slots.
    pending: usize,
    /// Whether `finish_init` has run.
    inited: bool,
    /// Tasks waiting for space.
    push_waiters: WaitList,
    /// Tasks waiting for data.
    pop_waiters: WaitList,
}

impl<T> View for Queue<T> {
    type V = QueueModel<T>;

    closed spec fn view(&self) -> QueueModel<T> {
        QueueModel {
            cap: self.storage@.len(),
            items: self.contents(),
            push_waiters: self.push_waiters@,
            pop_waiters: self.pop_waiters@,
            inited: self.inited,
        }
    }
}

impl<T> Queue<T> {
    /// Index of the next slot a push will write.
    pub closed spec fn head_spec(&self) -> int {
        self.head as int
    }

    /// Index of the next slot a pop will read.
    pub closed spec fn tail_spec(&self) -> int {
        self.tail as int
    }

    /// Number of live slots.
    pub closed spec fn pending_spec(&self) -> int {
        self.pending as int
    }

    /// Whether slot `i` currently holds a live value.
    pub closed spec fn slot_live(&self, i: int) -> bool {
        self.storage@[i] is Some
    }

    /// The live values in ring order, oldest first.
    closed spec fn contents(&self) -> Seq<T> {
        Seq::new(
            self.pending as nat,
            |k: int|
                self.storage@[ring_index(
                    self.tail as int,
                    k,
                    self.storage@.len() as int,
                )].unwrap(),
        )
    }

    /// Ring-state well-formedness: counters in range, `head` derived from
    /// `tail` and `pending`, and exactly the slots of the live region
    /// initialized.
    closed spec fn ring_wf(&self) -> bool {
        let n = self.storage@.len() as int;
        &&& 1 <= n
        &&& self.pending as int <= n
        &&& (self.head as int) < n
        &&& (self.tail as int) < n
        &&& self.head as int == ring_index(self.tail as int, self.pending as int, n)
        &&& forall|i: int|
            0 <= i < n ==> ((#[trigger] self.storage@[i]) is Some <==> slot_in_live_range(
                self.tail as int,
                self.pending as int,
                n,
                i,
            ))
    }

    /// Queue well-formedness: a well-formed ring and two well-formed wait
    /// lists.
    pub closed spec fn wf(&self) -> bool {
        &&& self.ring_wf()
        &&& wait_list_model_wf(self.push_waiters@)
        &&& wait_list_model_wf(self.pop_waiters@)
    }

    /// Creates a queue with room for `capacity` values, with zero counters
    /// and empty wait lists. The queue is not usable until `finish_init`
    /// has run.
    pub fn new(capacity: usize) -> (q: Self)
        requires
            capacity >= 1,
        ensures
            q.wf(),
            q@.cap == capacity,
            q@.items == Seq::<T>::empty(),
            q@.push_waiters.waiting == Seq::<u64>::empty(),
            q@.push_waiters.woken == Seq::<u64>::empty(),
            q@.pop_waiters.waiting == Seq::<u64>::empty(),
            q@.pop_waiters.woken == Seq::<u64>::empty(),
            !q@.inited,
            q.head_spec() == 0,
            q.tail_spec() == 0,
    {
        let mut storage: Vec<Option<T>> = Vec::new();
        let mut i: usize = 0;
        while i < capacity
            invariant
                i <= capacity,
                storage@.len() == i,
                forall|j: int| 0 <= j < i ==> (#[trigger] storage@[j]) is None,
            decreases capacity - i,
        {
            storage.push(None);
            i = i + 1;
        }
        let q = Queue {
            storage,
            head: 0,
            tail: 0,
            pending: 0,
            inited: false,
            push_waiters: WaitList::new(),
            pop_waiters: WaitList::new(),
        };
        proof {
            assert(q.contents() =~= Seq::<T>::empty());
        }
        q
    }

    /// Finishes the two-phase construction, after the queue has reached
    /// its final resting place. Must run exactly once.
    pub fn finish_init(&mut self)
        requires
            old(self).wf(),
            !old(self)@.inited,
        ensures
            final(self).wf(),
            final(self)@ == (QueueModel {
                cap: old(self)@.cap,
                items: old(self)@.items,
                push_waiters: old(self)@.push_waiters,
                pop_waiters: old(self)@.pop_waiters,
                inited: true,
            }),
            final(self).head_spec() == old(self).head_spec(),
            final(self).tail_spec() == old(self).tail_spec(),
    {
        self.inited = true;
    }

    /// Returns the maximum number of values the queue can hold.
    pub fn capacity(&self) -> (n: usize)
        ensures
            n == self@.cap,
    {
        self.storage.len()
    }

    /// Returns the number of values currently waiting in the queue.
    pub fn len(&self) -> (n: usize)
        ensures
            n == self@.items.len(),
    {
        self.pending
    }

    /// Checks whether the queue is empty and can't produce a value at this
    /// time.
    pub fn is_empty(&self) -> (r: bool)
        ensures
            r == (self@.items.len() == 0),
    {
        self.pending == 0
    }

    /// Checks whether the queue is full and can't accept a push at this
    /// time.
    pub fn is_full(&self) -> (r: bool)
        ensures
            r == (self@.items.len() == self@.cap),
    {
        self.pending == self.storage.len()
    }

    /// Inserts `value` at the head of the queue if space is currently
    /// available; on a full queue, returns the value to the caller
    /// unchanged. Completing a push on a previously empty queue hands one
    /// wake token to the front consumer.
    pub fn try_push(&mut self, value: T) -> (r: Result<(), T>)
        requires
            old(self).wf(),
            old(self)@.inited,
        ensures
            final(self).wf(),
            final(self)@.inited,
            final(self)@.cap == old(self)@.cap,
            final(self)@.push_waiters == old(self)@.push_waiters,
            final(self).tail_spec() == old(self).tail_spec(),
            old(self)@.items.len() == old(self)@.cap ==> r == Err::<(), T>(value) && *final(self)
                == *old(self),
            old(self)@.items.len() < old(self)@.cap ==> {
                &&& r == Ok::<(), T>(())
                &&& final(self)@.items == old(self)@.items.push(value)
                &&& final(self)@.pop_waiters == (if old(self)@.items.len() == 0 {
                    wake_one_m(old(self)@.pop_waiters)
                } else {
                    old(self)@.pop_waiters
                })
            },
    {
        if self.is_full() {
            return Err(value);
        }
        let ghost pre = *self;
        let h = self.head;
        let n = self.storage.len();
        self.storage.set(h, Some(value));
        self.head = if h == n - 1 {
            0
        } else {
            h + 1
        };
        self.pending = self.pending + 1;
        proof {
            assert(self.contents() =~= pre.contents().push(value)) by {
                assert forall|k: int| 0 <= k < self.pending implies self.contents()[k] == pre
                    .contents().push(value)[k] by {
                    if k < pre.pending {
                        assert(ring_index(self.tail as int, k, n as int) != h as int);
                    }
                }
            }
        }
        let was_empty = h == self.tail;
        if was_empty {
            self.pop_waiters.wake_one();
        }
        Ok(())
    }

    /// Moves the oldest value out of the queue if one is currently
    /// available. Completing a pop on a previously full queue hands one
    /// wake token to the front producer.
    pub fn try_pop(&mut self) -> (r: Option<T>)
        requires
            old(self).wf(),
            old(self)@.inited,
        ensures
            final(self).wf(),
            final(self)@.inited,
            final(self)@.cap == old(self)@.cap,
            final(self)@.pop_waiters == old(self)@.pop_waiters,
            old(self)@.items.len() == 0 ==> r is None && *final(self) == *old(self),
            old(self)@.items.len() > 0 ==> {
                &&& r == Some(old(self)@.items[0])
                &&& final(self)@.items == old(self)@.items.drop_first()
                &&& final(self)@.push_waiters == (if old(self)@.items.len() == old(self)@.cap {
                    wake_one_m(old(self)@.push_waiters)
                } else {
                    old(self)@.push_waiters
                })
            },
    {
        if self.is_empty() {
            return None;
        }
        let ghost pre = *self;
        let t = self.tail;
        let n = self.storage.len();
        let slot_ref = &mut self.storage[t];
        let slot = slot_ref.take();
        let value = match slot {
            Some(v) => v,
            None => vstd::pervasive::unreached(),
        };
        self.tail = if t == n - 1 {
            0
        } else {
            t + 1
        };
        self.pending = self.pending - 1;
        proof {
            assert(self.contents() =~= pre.contents().drop_first()) by {
                assert forall|k: int| 0 <= k < self.pending implies self.contents()[k] == pre
                    .contents().drop_first()[k] by {
                    assert(ring_index(self.tail as int, k, n as int) == ring_index(
                        pre.tail as int,
                        k + 1,
                        n as int,
                    ));
                    assert(ring_index(pre.tail as int, k + 1, n as int) != t as int);
                }
            }
            assert(pre.contents()[0] == value);
        }
        let was_full = t == self.head;
        if was_full {
            self.push_waiters.wake_one();
        }
        Some(value)
    }

    /// Begins a blocking push driven by `task`: the returned state machine
    /// owns `value` until the push completes. Poll it with `poll_push`;
    /// cancel it with `cancel_push`.
    pub fn push(&self, task: u64, value: T) -> (fut: PushFuture<T>)
        ensures
            fut.task_id() == task,
            fut.pending_value() == Some(value),
            !fut.is_done(),
    {
        PushFuture { task, value: Some(value) }
    }

    /// Advances a blocking push by one poll.
    ///
    /// A parked task stays parked. Otherwise the task gives back any wake
    /// token it holds and retries: on room, the value is committed as by
    /// `try_push` and the operation completes; on a full queue, the task
    /// parks at the tail of the producer list.
    pub fn poll_push(&mut self, fut: &mut PushFuture<T>) -> (done: bool)
        requires
            old(self).wf(),
            old(self)@.inited,
            !old(fut).is_done(),
        ensures
            final(self).wf(),
            final(self)@.inited,
            final(self)@.cap == old(self)@.cap,
            final(fut).task_id() == old(fut).task_id(),
            done == final(fut).is_done(),
            old(self)@.push_waiters.waiting.contains(old(fut).task_id()) ==> !done && *final(self)
                == *old(self) && *final(fut) == *old(fut),
            !old(self)@.push_waiters.waiting.contains(old(fut).task_id()) && old(self)@.items.len()
                < old(self)@.cap ==> {
                &&& done
                &&& final(self)@.items == old(self)@.items.push(old(fut).pending_value().unwrap())
                &&& final(self)@.push_waiters == acknowledge_m(
                    old(self)@.push_waiters,
                    old(fut).task_id(),
                )
                &&& final(self)@.pop_waiters == (if old(self)@.items.len() == 0 {
                    wake_one_m(old(self)@.pop_waiters)
                } else {
                    old(self)@.pop_waiters
                })
            },
            !old(self)@.push_waiters.waiting.contains(old(fut).task_id()) && old(self)@.items.len()
                == old(self)@.cap ==> {
                &&& !done
                &&& final(fut).pending_value() == old(fut).pending_value()
                &&& final(self)@.items == old(self)@.items
                &&& final(self)@.push_waiters == insert_m(
                    acknowledge_m(old(self)@.push_waiters, old(fut).task_id()),
                    old(fut).task_id(),
                )
                &&& final(self)@.pop_waiters == old(self)@.pop_waiters
                &&& final(self).head_spec() == old(self).head_spec()
                &&& final(self).tail_spec() == old(self).tail_spec()
            },
    {
        if self.push_waiters.contains_waiting(fut.task) {
            return false;
        }
        self.push_waiters.acknowledge(fut.task);
        proof {
            crate::wait_list::lemma_remove_value_removes(old(self)@.push_waiters.woken, fut.task);
        }
        let v = match fut.value.take() {
            Some(v) => v,
            None => vstd::pervasive::unreached(),
        };
        match self.try_push(v) {
            Ok(_) => true,
            Err(v2) => {
                fut.value = Some(v2);
                self.push_waiters.insert(fut.task);
                false
            },
        }
    }

    /// Abandons a blocking push before completion and returns ownership of
    /// the value, if it had not been committed, to the caller.
    ///
    /// Cancellation is pure on the ring: the live values and the ring
    /// indices are untouched, and the consumer list is untouched. If the
    /// cancelled producer already held a wake token, the token is
    /// forwarded to the next parked producer.
    pub fn cancel_push(&mut self, fut: PushFuture<T>) -> (leftover: Option<T>)
        requires
            old(self).wf(),
            old(self)@.inited,
        ensures
            final(self).wf(),
            final(self)@.inited,
            final(self)@.cap == old(self)@.cap,
            leftover == fut.pending_value(),
            final(self)@.items == old(self)@.items,
            final(self)@.pop_waiters == old(self)@.pop_waiters,
            final(self)@.push_waiters == cancel_m(old(self)@.push_waiters, fut.task_id()),
            final(self).head_spec() == old(self).head_spec(),
            final(self).tail_spec() == old(self).tail_spec(),
            final(self).pending_spec() == old(self).pending_spec(),
    {
        self.push_waiters.cancel(fut.task);
        fut.value
    }

    /// Begins a blocking pop driven by `task`. Poll it with `poll_pop`;
    /// cancel it with `cancel_pop`.
    pub fn pop(&self, task: u64) -> (fut: PopFuture)
        ensures
            fut.task_id() == task,
            !fut.is_done(),
    {
        PopFuture { task, done: false }
    }

    /// Advances a blocking pop by one poll.
    ///
    /// A parked task stays parked. Otherwise the task gives back any wake
    /// token it holds and re-checks: on data, the oldest value is moved
    /// out as by `try_pop` and the operation completes; on an empty queue,
    /// the task parks at the tail of the consumer list. Spurious polls and
    /// barging are tolerated: a woken task that finds the queue empty
    /// simply parks again.
    pub fn poll_pop(&mut self, fut: &mut PopFuture) -> (r: Option<T>)
        requires
            old(self).wf(),
            old(self)@.inited,
            !old(fut).is_done(),
        ensures
            final(self).wf(),
            final(self)@.inited,
            final(self)@.cap == old(self)@.cap,
            final(fut).task_id() == old(fut).task_id(),
            (r is Some) == final(fut).is_done(),
            old(self)@.pop_waiters.waiting.contains(old(fut).task_id()) ==> r is None
                && *final(self) == *old(self) && *final(fut) == *old(fut),
            !old(self)@.pop_waiters.waiting.contains(old(fut).task_id()) && old(self)@.items.len()
                > 0 ==> {
                &&& r == Some(old(self)@.items[0])
                &&& final(self)@.items == old(self)@.items.drop_first()
                &&& final(self)@.pop_waiters == acknowledge_m(
                    old(self)@.pop_waiters,
                    old(fut).task_id(),
                )
                &&& final(self)@.push_waiters == (if old(self)@.items.len() == old(self)@.cap {
                    wake_one_m(old(self)@.push_waiters)
                } else {
                    old(self)@.push_waiters
                })
            },
            !old(self)@.pop_waiters.waiting.contains(old(fut).task_id()) && old(self)@.items.len()
                == 0 ==> {
                &&& r is None
                &&& final(self)@.items == old(self)@.items
                &&& final(self)@.pop_waiters == insert_m(
                    acknowledge_m(old(self)@.pop_waiters, old(fut).task_id()),
                    old(fut).task_id(),
                )
                &&& final(self)@.push_waiters == old(self)@.push_waiters
                &&& final(self).head_spec() == old(self).head_spec()
                &&& final(self).tail_spec() == old(self).tail_spec()
            },
    {
        if self.pop_waiters.contains_waiting(fut.task) {
            return None;
        }
        self.pop_waiters.acknowledge(fut.task);
        proof {
            crate::wait_list::lemma_remove_value_removes(old(self)@.pop_waiters.woken, fut.task);
        }
        match self.try_pop() {
            Some(v) => {
                fut.done = true;
                Some(v)
            },
            None => {
                self.pop_waiters.insert(fut.task);
                None
            },
        }
    }

    /// Abandons a blocking pop before completion; no value is consumed.
    ///
    /// Cancellation is pure on the ring, and the producer list is
    /// untouched. If the cancelled consumer already held a wake token, the
    /// token is forwarded to the next parked consumer.
    pub fn cancel_pop(&mut self, fut: PopFuture)
        requires
            old(self).wf(),
            old(self)@.inited,
        ensures
            final(self).wf(),
            final(self)@.inited,
            final(self)@.cap == old(self)@.cap,
            final(self)@.items == old(self)@.items,
            final(self)@.push_waiters == old(self)@.push_waiters,
            final(self)@.pop_waiters == cancel_m(old(self)@.pop_waiters, fut.task_id()),
            final(self).head_spec() == old(self).head_spec(),
            final(self).tail_spec() == old(self).tail_spec(),
            final(self).pending_spec() == old(self).pending_spec(),
    {
        self.pop_waiters.cancel(fut.task);
    }

    /// The producer holding the oldest outstanding wake token, if any:
    /// the one the executor should re-poll next.
    pub fn woken_producer(&self) -> (r: Option<u64>)
        ensures
            r == if self@.push_waiters.woken.len() == 0 {
                Option::<u64>::None
            } else {
                Option::Some(self@.push_waiters.woken[0])
            },
    {
        self.push_waiters.first_woken()
    }

    /// The consumer holding the oldest outstanding wake token, if any:
    /// the one the executor should re-poll next.
    pub fn woken_consumer(&self) -> (r: Option<u64>)
        ensures
            r == if self@.pop_waiters.woken.len() == 0 {
                Option::<u64>::None
            } else {
                Option::Some(self@.pop_waiters.woken[0])
            },
    {
        self.pop_waiters.first_woken()
    }
}

/// On the index ranges the ring uses, the conditional reset equals the
/// modulo formulation.
pub proof fn lemma_ring_index_is_mod(tail: int, k: int, n: int)
    requires
        0 < n,
        0 <= tail < n,
        0 <= k <= n,
    ensures
        ring_index(tail, k, n) == (tail + k) % n,
{
    if tail + k < n {
        vstd::arithmetic::div_mod::lemma_small_mod((tail + k) as nat, n as nat);
    } else {
        vstd::arithmetic::div_mod::lemma_mod_multiples_vanish(1, tail + k - n, n);
        vstd::arithmetic::div_mod::lemma_small_mod((tail + k - n) as nat, n as nat);
    }
}

impl<T> Queue<T> {
    /// The counters stay in range: the live count is at most the capacity
    /// and both ring indices lie inside the storage.
    pub proof fn lemma_counters_in_range(&self)
        requires
            self.wf(),
        ensures
            0 <= self@.items.len() <= self@.cap,
            self@.items.len() == self.pending_spec(),
            0 <= self.head_spec() < self@.cap,
            0 <= self.tail_spec() < self@.cap,
    {
    }

    /// An empty queue has `head == tail`, and so does a full one: the two
    /// states are told apart by the live count, never by the indices.
    pub proof fn lemma_empty_full_head_eq_tail(&self)
        requires
            self.wf(),
            self@.items.len() == 0 || self@.items.len() == self@.cap,
        ensures
            self.head_spec() == self.tail_spec(),
    {
    }

    /// For a partially filled queue, the live count is recoverable from
    /// the indices alone: it is `(head - tail) mod capacity`. (On an
    /// empty and on a full queue `head == tail`, and the live count
    /// alone tells the two apart.)
    pub proof fn lemma_pending_from_indices(&self)
        requires
            self.wf(),
            0 < self@.items.len() < self@.cap,
        ensures
            self.pending_spec() == (self.head_spec() - self.tail_spec()) % (self@.cap as int),
    {
        let n = self@.cap as int;
        let d = self.head_spec() - self.tail_spec();
        if self.tail_spec() + self.pending_spec() < n {
            vstd::arithmetic::div_mod::lemma_small_mod(d as nat, n as nat);
        } else {
            vstd::arithmetic::div_mod::lemma_mod_multiples_vanish(-1, d + n, n);
            vstd::arithmetic::div_mod::lemma_small_mod((d + n) as nat, n as nat);
        }
    }

    /// The live slots are exactly `{ (tail + k) % capacity : 0 <= k <
    /// items.len() }`; every other slot holds nothing.
    pub proof fn lemma_live_slots(&self)
        requires
            self.wf(),
        ensures
            forall|i: int|
                0 <= i < self@.cap ==> ((#[trigger] self.slot_live(i)) <==> exists|k: int|
                    0 <= k < self@.items.len() && i == #[trigger] ((self.tail_spec() + k) % (
                    self@.cap as int))),
    {
        let n = self@.cap as int;
        let tail = self.tail_spec();
        let pending = self.pending_spec();
        assert forall|i: int| 0 <= i < n implies ((self.slot_live(i)) <==> exists|k: int|
            0 <= k < self@.items.len() && i == #[trigger] ((tail + k) % n)) by {
            if self.slot_live(i) {
                let k = if i >= tail {
                    i - tail
                } else {
                    i + n - tail
                };
                lemma_ring_index_is_mod(tail, k, n);
                assert(0 <= k < self@.items.len() && i == (tail + k) % n);
            }
            if exists|k: int| 0 <= k < self@.items.len() && i == #[trigger] ((tail + k) % n) {
                let k = choose|k: int|
                    0 <= k < self@.items.len() && i == #[trigger] ((tail + k) % n);
                lemma_ring_index_is_mod(tail, k, n);
                assert(slot_in_live_range(tail, pending, n, i));
            }
        }
    }
}

/// A blocking push in flight: the task driving it, and the value it still
/// owns until the push commits.
pub struct PushFuture<T> {
    task: u64,
    value: Option<T>,
}

impl<T> PushFuture<T> {
    /// The task driving this push.
    pub closed spec fn task_id(&self) -> u64 {
        self.task
    }

    /// The value not yet handed to the queue, if the push is incomplete.
    pub closed spec fn pending_value(&self) -> Option<T> {
        self.value
    }

    /// Whether the push has completed: exactly when the value has been
    /// committed to the queue.
    pub open spec fn is_done(&self) -> bool {
        self.pending_value() is None
    }
}

/// A blocking pop in flight: the task driving it.
pub struct PopFuture {
    task: u64,
    done: bool,
}

impl PopFuture {
    /// The task driving this pop.
    pub closed spec fn task_id(&self) -> u64 {
        self.task
    }

    /// Whether the pop has completed and delivered a value.
    pub closed spec fn is_done(&self) -> bool {
        self.done
    }
}

} // verus!
