use std::cell::RefCell;
use std::rc::Rc;

use lilos_queue::queue::Queue;

/// Ring wrap: capacity 3, fill it, pop one, push one more, drain; values
/// come out in push order across the wrap.
#[test]
fn ring_wrap() {
    let mut q: Queue<u32> = Queue::new(3);
    q.finish_init();
    assert_eq!(q.capacity(), 3);
    assert!(q.try_push(1).is_ok());
    assert!(q.try_push(2).is_ok());
    assert!(q.try_push(3).is_ok());
    assert!(q.is_full());
    assert_eq!(q.try_pop(), Some(1));
    assert!(q.try_push(4).is_ok());
    assert_eq!(q.try_pop(), Some(2));
    assert_eq!(q.try_pop(), Some(3));
    assert_eq!(q.try_pop(), Some(4));
    assert!(q.is_empty());
    assert_eq!(q.len(), 0);
}

/// A full queue rejects a push and hands the value back unchanged.
#[test]
fn try_push_full_returns_value() {
    let mut q: Queue<u32> = Queue::new(1);
    q.finish_init();
    assert!(q.try_push(10).is_ok());
    assert_eq!(q.try_push(11), Err(11));
    assert_eq!(q.len(), 1);
}

/// An empty queue delivers nothing.
#[test]
fn try_pop_empty_returns_none() {
    let mut q: Queue<u32> = Queue::new(2);
    q.finish_init();
    assert_eq!(q.try_pop(), None);
}

/// Round-trip FIFO on concrete values: push a sequence that fits, pop it
/// back in order.
#[test]
fn round_trip_fifo_concrete() {
    let mut q: Queue<u32> = Queue::new(5);
    q.finish_init();
    let vals = [7, 1, 9, 9, 3];
    for v in vals {
        assert!(q.try_push(v).is_ok());
    }
    for v in vals {
        assert_eq!(q.try_pop(), Some(v));
    }
    assert!(q.is_empty());
}

/// Blocking producer: capacity 1; A pushes immediately, B parks, a pop
/// makes room and wakes B, whose next poll completes.
#[test]
fn blocking_producer() {
    const A: u64 = 1;
    const B: u64 = 2;
    let mut q: Queue<char> = Queue::new(1);
    q.finish_init();

    let mut push_a = q.push(A, 'X');
    assert!(q.poll_push(&mut push_a));

    let mut push_b = q.push(B, 'Y');
    assert!(!q.poll_push(&mut push_b));

    assert_eq!(q.try_pop(), Some('X'));
    assert_eq!(q.woken_producer(), Some(B));

    assert!(q.poll_push(&mut push_b));
    assert_eq!(q.try_pop(), Some('Y'));
}

/// FIFO among waiters: producers A, B, C park in that order on a full
/// queue of capacity 1; each pop wakes exactly the next one in line.
#[test]
fn fifo_among_waiters() {
    const A: u64 = 1;
    const B: u64 = 2;
    const C: u64 = 3;
    let mut q: Queue<u32> = Queue::new(1);
    q.finish_init();
    assert!(q.try_push(100).is_ok());

    let mut push_a = q.push(A, 101);
    let mut push_b = q.push(B, 102);
    let mut push_c = q.push(C, 103);
    assert!(!q.poll_push(&mut push_a));
    assert!(!q.poll_push(&mut push_b));
    assert!(!q.poll_push(&mut push_c));

    assert_eq!(q.try_pop(), Some(100));
    assert_eq!(q.woken_producer(), Some(A));
    // A parked task that was not woken stays parked even if polled.
    assert!(!q.poll_push(&mut push_b));
    assert!(q.poll_push(&mut push_a));

    assert_eq!(q.try_pop(), Some(101));
    assert_eq!(q.woken_producer(), Some(B));
    assert!(!q.poll_push(&mut push_c));
    assert!(q.poll_push(&mut push_b));

    assert_eq!(q.try_pop(), Some(102));
    assert_eq!(q.woken_producer(), Some(C));
    assert!(q.poll_push(&mut push_c));

    assert_eq!(q.try_pop(), Some(103));
    assert!(q.is_empty());
}

/// Cancellation: a parked push is abandoned; the value comes back to the
/// caller and the queue's contents are untouched.
#[test]
fn cancellation_of_parked_push() {
    const A: u64 = 1;
    let mut q: Queue<char> = Queue::new(1);
    q.finish_init();
    assert!(q.try_push('X').is_ok());

    let mut push_a = q.push(A, 'Y');
    assert!(!q.poll_push(&mut push_a));
    let leftover = q.cancel_push(push_a);
    assert_eq!(leftover, Some('Y'));

    assert_eq!(q.try_pop(), Some('X'));
    assert_eq!(q.try_pop(), None);
    assert!(q.is_empty());
}

/// Cancelling a woken producer forwards its wake token to the next parked
/// producer, so no wake is lost.
#[test]
fn cancellation_forwards_wake_token() {
    const A: u64 = 1;
    const B: u64 = 2;
    let mut q: Queue<u32> = Queue::new(1);
    q.finish_init();
    assert!(q.try_push(5).is_ok());

    let mut push_a = q.push(A, 6);
    let mut push_b = q.push(B, 7);
    assert!(!q.poll_push(&mut push_a));
    assert!(!q.poll_push(&mut push_b));

    assert_eq!(q.try_pop(), Some(5));
    assert_eq!(q.woken_producer(), Some(A));

    let leftover = q.cancel_push(push_a);
    assert_eq!(leftover, Some(6));
    assert_eq!(q.woken_producer(), Some(B));

    assert!(q.poll_push(&mut push_b));
    assert_eq!(q.try_pop(), Some(7));
}

/// A blocking pop parks on an empty queue, is woken by the push that makes
/// the queue non-empty, and then delivers that value.
#[test]
fn blocking_consumer() {
    const A: u64 = 9;
    let mut q: Queue<u32> = Queue::new(2);
    q.finish_init();

    let mut pop_a = q.pop(A);
    assert_eq!(q.poll_pop(&mut pop_a), None);

    assert!(q.try_push(42).is_ok());
    assert_eq!(q.woken_consumer(), Some(A));
    assert_eq!(q.poll_pop(&mut pop_a), Some(42));
}

/// Cancelling a parked pop consumes nothing and leaves the queue as it
/// was.
#[test]
fn cancellation_of_parked_pop() {
    const A: u64 = 9;
    let mut q: Queue<u32> = Queue::new(2);
    q.finish_init();

    let mut pop_a = q.pop(A);
    assert_eq!(q.poll_pop(&mut pop_a), None);
    q.cancel_pop(pop_a);

    assert!(q.try_push(1).is_ok());
    assert_eq!(q.len(), 1);
    assert_eq!(q.try_pop(), Some(1));
}

/// FIFO among waiting consumers: each empty-to-non-empty transition wakes
/// exactly the consumer that has waited longest.
#[test]
fn fifo_among_waiting_consumers() {
    const C1: u64 = 1;
    const C2: u64 = 2;
    let mut q: Queue<u32> = Queue::new(2);
    q.finish_init();

    let mut pop_1 = q.pop(C1);
    let mut pop_2 = q.pop(C2);
    assert_eq!(q.poll_pop(&mut pop_1), None);
    assert_eq!(q.poll_pop(&mut pop_2), None);

    assert!(q.try_push(10).is_ok());
    assert_eq!(q.woken_consumer(), Some(C1));
    // A parked consumer that was not woken stays parked even if polled.
    assert_eq!(q.poll_pop(&mut pop_2), None);
    assert_eq!(q.poll_pop(&mut pop_1), Some(10));

    assert!(q.try_push(11).is_ok());
    assert_eq!(q.woken_consumer(), Some(C2));
    assert_eq!(q.poll_pop(&mut pop_2), Some(11));
}

/// Across a mixed run of pushes, pops and a cancellation, the delivered
/// values are a prefix, in push order, of the committed values.
#[test]
fn interleaving_preserves_order() {
    const A: u64 = 1;
    let mut q: Queue<u32> = Queue::new(2);
    q.finish_init();
    let mut committed: Vec<u32> = Vec::new();
    let mut delivered: Vec<u32> = Vec::new();

    assert!(q.try_push(1).is_ok());
    committed.push(1);
    assert!(q.try_push(2).is_ok());
    committed.push(2);

    let mut push_a = q.push(A, 3);
    assert!(!q.poll_push(&mut push_a));

    delivered.push(q.try_pop().unwrap());
    assert!(q.poll_push(&mut push_a));
    committed.push(3);

    let dropped = q.cancel_push(q.push(A, 99));
    assert_eq!(dropped, Some(99));

    delivered.push(q.try_pop().unwrap());
    delivered.push(q.try_pop().unwrap());
    assert_eq!(q.try_pop(), None);

    assert_eq!(committed, vec![1, 2, 3]);
    assert_eq!(delivered, committed);
}

/// A large queue of booleans, driven once through the blocking protocol.
#[test]
fn bool_queue_smoke() {
    const A: u64 = 1;
    const B: u64 = 2;
    let mut q: Queue<bool> = Queue::new(123);
    q.finish_init();

    let mut push_a = q.push(A, true);
    assert!(q.poll_push(&mut push_a));

    let mut pop_b = q.pop(B);
    assert_eq!(q.poll_pop(&mut pop_b), Some(true));
    assert!(q.is_empty());
}

/// A value whose destructor records itself, to observe exactly which
/// values a dropped queue destroys.
struct Tracked2 {
    value: u32,
    log: Rc<RefCell<Vec<u32>>>,
}

impl Drop for Tracked2 {
    fn drop(&mut self) {
        self.log.borrow_mut().push(self.value);
    }
}

/// Drop with residue: dropping a queue holding three live values runs
/// exactly those three destructors, once each.
#[test]
fn drop_with_residue() {
    let log: Rc<RefCell<Vec<u32>>> = Rc::new(RefCell::new(Vec::new()));
    {
        let mut q: Queue<Tracked2> = Queue::new(4);
        q.finish_init();
        for v in [10, 20, 30] {
            let item = Tracked2 { value: v, log: Rc::clone(&log) };
            assert!(q.try_push(item).is_ok());
        }
        assert_eq!(q.len(), 3);
        assert!(log.borrow().is_empty());
    }
    let mut dropped = log.borrow().clone();
    dropped.sort();
    assert_eq!(dropped, vec![10, 20, 30]);
}

/// A popped value is destroyed by the caller, not again by the queue.
#[test]
fn drop_after_pop_runs_once() {
    let log: Rc<RefCell<Vec<u32>>> = Rc::new(RefCell::new(Vec::new()));
    {
        let mut q: Queue<Tracked2> = Queue::new(2);
        q.finish_init();
        let item = Tracked2 { value: 7, log: Rc::clone(&log) };
        assert!(q.try_push(item).is_ok());
        let got = q.try_pop().unwrap();
        assert_eq!(got.value, 7);
        drop(got);
        assert_eq!(log.borrow().len(), 1);
    }
    assert_eq!(log.borrow().len(), 1);
}

/// A cancelled push drops its value with the canceller, and the queue
/// never sees it.
#[test]
fn cancelled_push_drops_value_with_caller() {
    const A: u64 = 1;
    let log: Rc<RefCell<Vec<u32>>> = Rc::new(RefCell::new(Vec::new()));
    let mut q: Queue<Tracked2> = Queue::new(1);
    q.finish_init();
    let first = Tracked2 { value: 1, log: Rc::clone(&log) };
    assert!(q.try_push(first).is_ok());

    let second = Tracked2 { value: 2, log: Rc::clone(&log) };
    let mut push_a = q.push(A, second);
    assert!(!q.poll_push(&mut push_a));
    let leftover = q.cancel_push(push_a);
    assert_eq!(leftover.as_ref().map(|t| t.value), Some(2));
    drop(leftover);
    assert_eq!(*log.borrow(), vec![2]);
}
