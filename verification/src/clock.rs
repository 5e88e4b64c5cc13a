//! The monotonic clock.
use vstd::prelude::*;

use std::time::{Duration, Instant};

verus! {

/// A reading of the monotonic clock.
#[verifier::external_type_specification]
#[verifier::external_body]
pub struct ExInstant(std::time::Instant);

/// `Instant::now`: some reading of the clock. Nothing is stated of it: each call may
/// give another.
pub assume_specification[ Instant::now ]() -> (r: Instant)
;

/// `Instant::elapsed`: some length of time. Nothing is stated of it: it depends on when
/// it is asked for.
pub assume_specification[ Instant::elapsed ](i: &Instant) -> (r: Duration)
;

/// `Duration::as_millis`: a length of time in whole milliseconds. Which number it is
/// is not stated: a `Duration` is opaque here, and every one comes from the clock.
pub assume_specification[ Duration::as_millis ](d: &Duration) -> (r: u128)
;

/// Whole milliseconds since `then`, as the clock has it.
pub fn millis_since(then: &Instant) -> (ms: u128) {
    then.elapsed().as_millis()
}

} // verus!
