//! The engine's only source of randomness.

use vstd::prelude::*;

verus! {

/// Relies on `quad_rand::gen_range`: for integer types it scales a fresh
/// 32-bit generator word `k` to `low + (high - low) * (k / 2^32)` in `f64`
/// arithmetic and truncates toward zero. With `low == 0` and
/// `0 < high <= 2^31` every quantity is non-negative, the scaled product
/// stays strictly below `high` (the product is at least `high * 2^-32`
/// below it, more than any rounding can bridge at these magnitudes), and
/// truncation keeps it there, so the result lies in `[0, high)`.
#[verifier::external_body]
pub(crate) fn rand_below(high: i64) -> (r: i64)
    requires
        0 < high <= 2_147_483_648,
    ensures
        0 <= r < high,
{
    quad_rand::gen_range(0, high)
}

} // verus!
