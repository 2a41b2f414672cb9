//! The source of sampling jitter: uniform fixed-point values in
//! `[0, SCALE)`, from any generator the caller supplies.

use vstd::prelude::*;
use crate::SCALE;

verus! {

/// Supplies the per-sample jitter. Any implementation returns a value below
/// one fixed-point unit; beyond that the sequence is its own (and may be
/// seeded, for reproducible renders).
pub trait RandomSource {
    fn next_unit(&mut self) -> (r: i64)
        ensures
            0 <= r < SCALE,
    ;
}

/// Relies on rand::random_range: a uniform value in the half-open range it
/// is given, drawn from the thread-local generator.
#[verifier::external_body]
fn random_below_scale() -> (r: i64)
    ensures
        0 <= r < SCALE,
{
    rand::random_range(0..SCALE)
}

/// The process's thread-local generator as a jitter source.
#[derive(Clone, Copy, Debug, PartialEq, Eq, Structural)]
pub struct ThreadRandom;

impl RandomSource for ThreadRandom {
    fn next_unit(&mut self) -> (r: i64) {
        random_below_scale()
    }
}

} // verus!
