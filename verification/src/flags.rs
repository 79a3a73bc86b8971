//! The flags and counters search threads share. Other threads write them, so
//! nothing is promised of what is read.

use vstd::prelude::*;
use std::sync::atomic::{AtomicBool, AtomicU64, Ordering};

verus! {

/// Whether the shared stop flag is set.
pub fn is_set(flag: &AtomicBool) -> (r: bool) {
    flag.load(Ordering::Relaxed)
}

/// Sets or clears the shared stop flag.
pub fn set_flag(flag: &AtomicBool, value: bool) {
    flag.store(value, Ordering::Relaxed)
}

/// Adds one to a shared counter (wrapping).
pub fn count_up(counter: &AtomicU64) {
    counter.fetch_add(1, Ordering::Relaxed);
}

/// Subtracts one from a shared counter (wrapping).
pub fn count_down(counter: &AtomicU64) {
    counter.fetch_sub(1, Ordering::Relaxed);
}

/// Reads a shared counter.
pub fn read_counter(counter: &AtomicU64) -> (r: u64) {
    counter.load(Ordering::Relaxed)
}

} // verus!
