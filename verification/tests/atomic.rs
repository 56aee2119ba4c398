use lilos_queue::atomic::{
    claim_once, rmw_ordering, AtomicArithExt, AtomicBool, AtomicExt, AtomicU32, AtomicUsize,
    MemOrder,
};

/// The full ordering decomposition table for the emulation path.
#[test]
fn rmw_ordering_table() {
    assert_eq!(rmw_ordering(MemOrder::Relaxed), (MemOrder::Relaxed, MemOrder::Relaxed));
    assert_eq!(rmw_ordering(MemOrder::Acquire), (MemOrder::Acquire, MemOrder::Relaxed));
    assert_eq!(rmw_ordering(MemOrder::Release), (MemOrder::Relaxed, MemOrder::Release));
    assert_eq!(rmw_ordering(MemOrder::AcqRel), (MemOrder::Acquire, MemOrder::Release));
    assert_eq!(rmw_ordering(MemOrder::SeqCst), (MemOrder::SeqCst, MemOrder::SeqCst));
}

/// Swap returns the previous contents and installs the new value.
#[test]
fn swap_u32() {
    let mut cell = AtomicU32::new(5);
    assert_eq!(cell.swap_polyfill(9, MemOrder::SeqCst), 5);
    assert_eq!(cell.load(MemOrder::Relaxed), 9);
}

/// Fetch-add wraps on overflow, like the hardware instruction.
#[test]
fn fetch_add_u32_wraps() {
    let mut cell = AtomicU32::new(u32::MAX);
    assert_eq!(cell.fetch_add_polyfill(1, MemOrder::AcqRel), u32::MAX);
    assert_eq!(cell.load(MemOrder::Relaxed), 0);

    let mut cell = AtomicU32::new(40);
    assert_eq!(cell.fetch_add_polyfill(2, MemOrder::Relaxed), 40);
    assert_eq!(cell.load(MemOrder::Relaxed), 42);
}

/// Fetch-or ORs the mask in and returns the previous contents.
#[test]
fn fetch_or_u32() {
    let mut cell = AtomicU32::new(0b1010);
    assert_eq!(cell.fetch_or_polyfill(0b0110, MemOrder::Release), 0b1010);
    assert_eq!(cell.load(MemOrder::Relaxed), 0b1110);
}

/// The usize cell behaves like the u32 one.
#[test]
fn usize_cell_operations() {
    let mut cell = AtomicUsize::new(usize::MAX);
    assert_eq!(cell.fetch_add_polyfill(3, MemOrder::SeqCst), usize::MAX);
    assert_eq!(cell.load(MemOrder::Relaxed), 2);
    assert_eq!(cell.swap_polyfill(11, MemOrder::Acquire), 2);
    assert_eq!(cell.fetch_or_polyfill(4, MemOrder::Relaxed), 11);
    assert_eq!(cell.load(MemOrder::Relaxed), 15);
}

/// The boolean cell swaps like the others.
#[test]
fn swap_bool() {
    let mut cell = AtomicBool::new(false);
    assert_eq!(cell.swap_polyfill(true, MemOrder::SeqCst), false);
    assert_eq!(cell.swap_polyfill(true, MemOrder::SeqCst), true);
}

/// Static double-init: the first claim of a construction site succeeds,
/// the second is refused and the caller treats it as fatal.
#[test]
fn double_init_detected() {
    let mut site = AtomicBool::new(false);
    assert!(claim_once(&mut site));
    assert!(!claim_once(&mut site));
    assert!(!claim_once(&mut site));
}
