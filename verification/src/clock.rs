//! The clock. What it reads depends on time, so nothing is promised of it.

use vstd::prelude::*;
use std::time::Instant;

verus! {

#[verifier::external_type_specification]
#[verifier::external_body]
pub struct ExInstant(std::time::Instant);

/// The current instant (`Instant::now`).
#[verifier::external_body]
pub fn now() -> (r: Instant) {
    Instant::now()
}

/// Whole milliseconds since `start` (`Instant::elapsed`, `Duration::as_millis`).
#[verifier::external_body]
pub fn elapsed_ms(start: &Instant) -> (r: u64) {
    start.elapsed().as_millis() as u64
}

} // verus!
