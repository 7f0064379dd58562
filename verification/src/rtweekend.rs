//! Random scalar draws, backed by the `rand` crate.

use vstd::prelude::*;

verus! {

use crate::fixed::OP_LIMIT;
use crate::fixed::iabs;

/// Relies on rand::random::<u64>: one fresh pseudo-random 64-bit value.
/// Nothing is promised of the value itself.
#[verifier::external_body]
fn rand_u64() -> u64 {
    rand::random::<u64>()
}

/// A pseudo-random raw scalar in the half-open interval `[min, max)`.
/// No claim is made about its distribution.
pub fn random_float(min: i128, max: i128) -> (r: i128)
    requires
        min < max,
        iabs(min as int) <= OP_LIMIT as int,
        iabs(max as int) <= OP_LIMIT as int,
    ensures
        min <= r < max,
{
    let span: i128 = max - min;
    let draw: u64 = rand_u64();
    let off: u128 = (draw as u128) % (span as u128);
    min + (off as i128)
}

} // verus!
