//! A bounded inter-task FIFO queue for a small cooperative executor, together
//! with the atomic polyfill layer that its one-shot construction guard uses.
//!
//! The queue couples a ring-buffer data path (`queue`) with FIFO wait lists
//! for blocked producers and consumers (`wait_list`). Blocking push and pop
//! are modelled as poll/cancel state machines: the executor performs the
//! actual suspension, the queue decides everything else.
//!
//! `history` states the queue's global laws (round-trip FIFO ordering and
//! conservation of values) over an abstract log of operations.

pub mod atomic;
pub mod history;
pub mod queue;
pub mod wait_list;
