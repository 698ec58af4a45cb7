//! The renderer's source of randomness.
//!
//! One trusted wrapper draws a machine word from the process generator;
//! everything derived from it is verified for every possible draw.

use vstd::prelude::*;
use crate::fixed::SCALE;

verus! {

/// Relies on rand::random: one word from the thread-local generator.
/// Nothing is promised of the value; callers must hold for every outcome.
#[verifier::external_body]
fn random_u64() -> u64 {
    rand::random::<u64>()
}

/// A draw from the unit interval `[0, 1)` in fixed point.
pub fn draw_unit() -> (r: i64)
    ensures
        0 <= r < SCALE,
{
    let w: u64 = random_u64() % 65536;
    w as i64
}

/// A draw from `[-1, 1]` in fixed point.
pub fn draw_symmetric() -> (r: i64)
    ensures
        -SCALE <= r <= SCALE,
{
    let w: u64 = random_u64() % 131073;
    (w as i64) - 65536
}

} // verus!
