//! Random sampling support.
//!
//! All randomness enters the library through one wrapper around the `rand`
//! crate; everything built on top of it is verified for every value the
//! wrapper can hand back.

use crate::fixed::{Fx, SCALE};
use crate::vec3::{v3_inv, v3_squared_length, Vec3, V3};
use vstd::prelude::*;

verus! {

/// Relies on rand::Rng::gen_range on a thread-local generator: a draw from
/// the given half-open range.  Nothing is assumed of the distribution, only
/// membership in the range.
#[verifier::external_body]
fn rand_in_range(lo: i64, hi: i64) -> (r: i64)
    requires
        lo < hi,
    ensures
        lo <= r < hi,
{
    rand::Rng::gen_range(&mut rand::thread_rng(), lo..hi)
}

/// A uniform-ish scalar draw in `[0, 1)`.
pub fn rand_unit() -> (r: Fx)
    ensures
        r.inv(),
        0 <= r@ < SCALE as int,
{
    Fx::from_raw(rand_in_range(0, SCALE))
}

/// A scalar draw in `[-1, 1]`.
pub fn rand_symmetric() -> (r: Fx)
    ensures
        r.inv(),
        -(SCALE as int) <= r@ <= SCALE as int,
{
    Fx::from_raw(rand_in_range(-SCALE, SCALE + 1))
}

/// An axis index drawn at random: 0, 1 or 2.
pub fn rand_axis() -> (r: u32)
    ensures
        r < 3,
{
    let v = rand_in_range(0, 3);
    v as u32
}

/// Strictly inside the unit ball (squared length below one).
pub open spec fn in_unit_ball(s: V3) -> bool {
    v3_inv(s) && v3_squared_length(s) < SCALE as int
}

/// A point strictly inside the unit ball, found by rejection sampling over
/// the enclosing cube; after a bounded number of misses the center is
/// returned, which is inside as well.
pub fn random_in_unit_sphere() -> (r: Vec3)
    ensures
        r.inv(),
        in_unit_ball(r@),
{
    let mut tries: u32 = 0;
    while tries < 64
        invariant
            true,
        decreases 64 - tries,
    {
        let p = Vec3::new(rand_symmetric(), rand_symmetric(), rand_symmetric());
        if p.squared_length().lt(Fx::one()) {
            return p;
        }
        tries = tries + 1;
    }
    let c = Vec3::zero();
    proof {
        crate::fixed::lemma_fx_mul_zero(0);
        assert(v3_squared_length(c@) == 0);
    }
    c
}

} // verus!
