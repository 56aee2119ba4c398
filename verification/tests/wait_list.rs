use lilos_queue::wait_list::WaitList;

/// Waiters are woken strictly in arrival order, one per wake.
#[test]
fn wake_in_fifo_order() {
    let mut l = WaitList::new();
    l.insert(1);
    l.insert(2);
    l.insert(3);
    assert_eq!(l.first_woken(), None);

    l.wake_one();
    assert_eq!(l.first_woken(), Some(1));
    assert_eq!(l.waiting_len(), 2);

    l.acknowledge(1);
    l.wake_one();
    assert_eq!(l.first_woken(), Some(2));

    l.acknowledge(2);
    l.wake_one();
    assert_eq!(l.first_woken(), Some(3));
}

/// A wake on an empty list is a no-op.
#[test]
fn wake_on_empty_is_noop() {
    let mut l = WaitList::new();
    l.wake_one();
    assert_eq!(l.first_woken(), None);
    assert_eq!(l.waiting_len(), 0);
}

/// Cancelling a parked waiter detaches it and touches nothing else.
#[test]
fn cancel_parked_waiter() {
    let mut l = WaitList::new();
    l.insert(1);
    l.insert(2);
    assert!(l.contains_waiting(1));
    l.cancel(1);
    assert!(!l.contains_waiting(1));
    assert!(l.contains_waiting(2));
    assert_eq!(l.waiting_len(), 1);
}

/// Cancelling a woken waiter forwards its token to the next parked one.
#[test]
fn cancel_woken_waiter_forwards_token() {
    let mut l = WaitList::new();
    l.insert(1);
    l.insert(2);
    l.wake_one();
    assert_eq!(l.first_woken(), Some(1));

    l.cancel(1);
    assert_eq!(l.first_woken(), Some(2));
    assert_eq!(l.waiting_len(), 0);
}

/// Cancelling a task that is not enrolled changes nothing.
#[test]
fn cancel_absent_task_is_noop() {
    let mut l = WaitList::new();
    l.insert(1);
    l.cancel(7);
    assert!(l.contains_waiting(1));
    assert_eq!(l.waiting_len(), 1);
    assert_eq!(l.first_woken(), None);
}
