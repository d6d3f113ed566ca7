//! The crate's single source of randomness.

use crate::fixed::{Fx, SCALE};
use rand::Rng;
use vstd::prelude::*;

verus! {

/// Relies on rand::Rng::gen_range over rand::thread_rng: a draw from the
/// non-empty range `0..n` is in `[0, n)`.
#[verifier::external_body]
pub(crate) fn rand_below(n: i64) -> (r: i64)
    requires
        0 < n,
    ensures
        0 <= r < n,
{
    rand::thread_rng().gen_range(0..n)
}

/// A uniform fixed-point draw from `[0, 1)`.
pub(crate) fn rand_unit() -> (r: Fx)
    ensures
        0 <= r.v() < SCALE,
{
    Fx { raw: rand_below(SCALE) }
}

} // verus!
