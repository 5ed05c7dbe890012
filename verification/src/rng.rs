//! Trusted access to the process pseudorandom source. Each wrapper states
//! only what holds of every outcome; nothing about which value comes back.

use vstd::prelude::*;
use rand::Rng;

verus! {

/// Relies on rand's `Rng::gen_range` over `low..high`: returns a value of the
/// half-open range, and panics only when the range is empty, which the
/// precondition rules out.
#[verifier::external_body]
pub(crate) fn rand_range_i64(low: i64, high: i64) -> (r: i64)
    requires
        low < high,
    ensures
        low <= r < high,
{
    rand::thread_rng().gen_range(low..high)
}

/// Relies on rand's `Rng::gen_range` over `0..len`: returns an index below
/// `len`, and panics only when `len` is zero, which the precondition rules
/// out.
#[verifier::external_body]
pub(crate) fn rand_below(len: usize) -> (r: usize)
    requires
        1 <= len,
    ensures
        r < len,
{
    rand::thread_rng().gen_range(0..len)
}

} // verus!
