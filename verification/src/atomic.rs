//! Atomic polyfill layer.
//!
//! Processors without hardware read-modify-write instructions emulate
//! swap / fetch-add / fetch-or by splitting the requested memory ordering
//! into a load ordering and a store ordering, and running a plain
//! load / compute / store sequence with interrupts masked. On a single-core
//! target that sequence is indivisible, so its observable behaviour is
//! exactly the sequential behaviour verified here.
//!
//! The cells in this module are the verified single-core model of that
//! emulation path: each operation performs the ordering split and then the
//! load / compute / store sequence. A hardware back-end forwards the same
//! operations to native instructions and keeps the same contracts.

use vstd::prelude::*;

verus! {

/// A memory ordering requested for a read-modify-write operation.
///
/// Only these five orderings are meaningful for a read-modify-write; the
/// emulation path rejects everything else by construction, since no other
/// value of this type exists.
#[derive(Clone, Copy, Debug, PartialEq, Eq, Structural)]
pub enum MemOrder {
    Relaxed,
    Acquire,
    Release,
    AcqRel,
    SeqCst,
}

/// The ordering decomposition table for the emulation path: the load
/// ordering and the store ordering that together realize the requested
/// read-modify-write ordering.
pub open spec fn spec_rmw_ordering(o: MemOrder) -> (MemOrder, MemOrder) {
    match o {
        MemOrder::Relaxed => (MemOrder::Relaxed, MemOrder::Relaxed),
        MemOrder::Acquire => (MemOrder::Acquire, MemOrder::Relaxed),
        MemOrder::Release => (MemOrder::Relaxed, MemOrder::Release),
        MemOrder::AcqRel => (MemOrder::Acquire, MemOrder::Release),
        MemOrder::SeqCst => (MemOrder::SeqCst, MemOrder::SeqCst),
    }
}

/// Splits a requested read-modify-write ordering into the load ordering and
/// the store ordering used by the critical-section emulation.
pub fn rmw_ordering(o: MemOrder) -> (r: (MemOrder, MemOrder))
    ensures
        r == spec_rmw_ordering(o),
{
    match o {
        MemOrder::AcqRel => (MemOrder::Acquire, MemOrder::Release),
        MemOrder::Relaxed => (o, o),
        MemOrder::SeqCst => (o, o),
        MemOrder::Acquire => (MemOrder::Acquire, MemOrder::Relaxed),
        MemOrder::Release => (MemOrder::Relaxed, MemOrder::Release),
    }
}

/// Basic atomic operations.
pub trait AtomicExt: Sized {
    /// Primitive type corresponding to this atomic type.
    type Value;

    /// The value currently held by the cell.
    spec fn stored(&self) -> Self::Value;

    /// Atomically exchange the current contents for `val`, returning the
    /// original contents.
    fn swap_polyfill(&mut self, val: Self::Value, ordering: MemOrder) -> (prev: Self::Value)
        ensures
            prev == old(self).stored(),
            final(self).stored() == val,
    ;
}

/// Atomic operations that apply to arithmetic types.
pub trait AtomicArithExt: AtomicExt {
    /// Addition that wraps around on overflow, on this cell's value type.
    spec fn spec_wrapping_add(a: Self::Value, b: Self::Value) -> Self::Value;

    /// Bitwise OR on this cell's value type.
    spec fn spec_bit_or(a: Self::Value, b: Self::Value) -> Self::Value;

    /// Atomically add `val` to the contents (wrapping), returning the
    /// original value.
    fn fetch_add_polyfill(&mut self, val: Self::Value, ordering: MemOrder) -> (prev: Self::Value)
        ensures
            prev == old(self).stored(),
            final(self).stored() == Self::spec_wrapping_add(old(self).stored(), val),
    ;

    /// Atomically OR `val` into the contents, returning the original value.
    fn fetch_or_polyfill(&mut self, val: Self::Value, ordering: MemOrder) -> (prev: Self::Value)
        ensures
            prev == old(self).stored(),
            final(self).stored() == Self::spec_bit_or(old(self).stored(), val),
    ;
}

/// Single-core model of a `u32` atomic cell.
pub struct AtomicU32 {
    value: u32,
}

impl AtomicU32 {
    /// Creates a cell holding `v`.
    pub fn new(v: u32) -> (r: Self)
        ensures
            r.stored() == v,
    {
        AtomicU32 { value: v }
    }

    /// Plain load, with the ordering the emulation path selected for it.
    pub fn load(&self, ordering: MemOrder) -> (r: u32)
        ensures
            r == self.stored(),
    {
        self.value
    }

    /// Plain store, with the ordering the emulation path selected for it.
    pub fn store(&mut self, val: u32, ordering: MemOrder)
        ensures
            final(self).stored() == val,
    {
        self.value = val;
    }
}

impl AtomicExt for AtomicU32 {
    type Value = u32;

    closed spec fn stored(&self) -> u32 {
        self.value
    }

    fn swap_polyfill(&mut self, val: u32, ordering: MemOrder) -> (prev: u32) {
        let (lo, so) = rmw_ordering(ordering);
        let x = self.load(lo);
        self.store(val, so);
        x
    }
}

impl AtomicArithExt for AtomicU32 {
    open spec fn spec_wrapping_add(a: u32, b: u32) -> u32 {
        vstd::wrapping::u32_specs::wrapping_add(a, b)
    }

    open spec fn spec_bit_or(a: u32, b: u32) -> u32 {
        a | b
    }

    fn fetch_add_polyfill(&mut self, val: u32, ordering: MemOrder) -> (prev: u32) {
        let (lo, so) = rmw_ordering(ordering);
        let x = self.load(lo);
        self.store(x.wrapping_add(val), so);
        x
    }

    fn fetch_or_polyfill(&mut self, val: u32, ordering: MemOrder) -> (prev: u32) {
        let (lo, so) = rmw_ordering(ordering);
        let x = self.load(lo);
        self.store(x | val, so);
        x
    }
}

/// Single-core model of a `usize` atomic cell.
pub struct AtomicUsize {
    value: usize,
}

impl AtomicUsize {
    /// Creates a cell holding `v`.
    pub fn new(v: usize) -> (r: Self)
        ensures
            r.stored() == v,
    {
        AtomicUsize { value: v }
    }

    /// Plain load, with the ordering the emulation path selected for it.
    pub fn load(&self, ordering: MemOrder) -> (r: usize)
        ensures
            r == self.stored(),
    {
        self.value
    }

    /// Plain store, with the ordering the emulation path selected for it.
    pub fn store(&mut self, val: usize, ordering: MemOrder)
        ensures
            final(self).stored() == val,
    {
        self.value = val;
    }
}

impl AtomicExt for AtomicUsize {
    type Value = usize;

    closed spec fn stored(&self) -> usize {
        self.value
    }

    fn swap_polyfill(&mut self, val: usize, ordering: MemOrder) -> (prev: usize) {
        let (lo, so) = rmw_ordering(ordering);
        let x = self.load(lo);
        self.store(val, so);
        x
    }
}

impl AtomicArithExt for AtomicUsize {
    open spec fn spec_wrapping_add(a: usize, b: usize) -> usize {
        vstd::wrapping::usize_specs::wrapping_add(a, b)
    }

    open spec fn spec_bit_or(a: usize, b: usize) -> usize {
        a | b
    }

    fn fetch_add_polyfill(&mut self, val: usize, ordering: MemOrder) -> (prev: usize) {
        let (lo, so) = rmw_ordering(ordering);
        let x = self.load(lo);
        self.store(x.wrapping_add(val), so);
        x
    }

    fn fetch_or_polyfill(&mut self, val: usize, ordering: MemOrder) -> (prev: usize) {
        let (lo, so) = rmw_ordering(ordering);
        let x = self.load(lo);
        self.store(x | val, so);
        x
    }
}

/// Single-core model of a `bool` atomic cell.
pub struct AtomicBool {
    value: bool,
}

impl AtomicBool {
    /// Creates a cell holding `v`.
    pub fn new(v: bool) -> (r: Self)
        ensures
            r.stored() == v,
    {
        AtomicBool { value: v }
    }

    /// Plain load, with the ordering the emulation path selected for it.
    pub fn load(&self, ordering: MemOrder) -> (r: bool)
        ensures
            r == self.stored(),
    {
        self.value
    }

    /// Plain store, with the ordering the emulation path selected for it.
    pub fn store(&mut self, val: bool, ordering: MemOrder)
        ensures
            final(self).stored() == val,
    {
        self.value = val;
    }
}

impl AtomicExt for AtomicBool {
    type Value = bool;

    closed spec fn stored(&self) -> bool {
        self.value
    }

    fn swap_polyfill(&mut self, val: bool, ordering: MemOrder) -> (prev: bool) {
        let (lo, so) = rmw_ordering(ordering);
        let x = self.load(lo);
        self.store(val, so);
        x
    }
}

/// One-shot guard for a construction site that must run exactly once.
///
/// The first claim of a fresh flag returns `true`; every later claim returns
/// `false`, and the caller treats that as a fatal double-initialization.
/// The guard is a `SeqCst` swap, so on hardware the decision is indivisible.
pub fn claim_once(flag: &mut AtomicBool) -> (first: bool)
    ensures
        first == !old(flag).stored(),
        final(flag).stored(),
{
    !flag.swap_polyfill(true, MemOrder::SeqCst)
}

} // verus!
