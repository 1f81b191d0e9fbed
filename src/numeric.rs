//! Integer operations taken from the `num` crate.
use vstd::prelude::*;

verus! {

/// Relies on `num::integer::sqrt`: for `x >= 0` it returns the truncated
/// principal square root `r`, the one with `r * r <= x < (r + 1) * (r + 1)`
/// (it panics on a negative `x`).
#[verifier::external_body]
pub(crate) fn isqrt(x: i64) -> (r: i64)
    requires
        x >= 0,
    ensures
        r >= 0,
        r * r <= x < (r + 1) * (r + 1),
{
    num::integer::sqrt(x)
}

} // verus!
