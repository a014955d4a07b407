//! The random source.
//!
//! All randomness enters through `uniform_raw`. What is built on it states
//! what holds of every draw.

use vstd::prelude::*;
use rand::Rng;
use crate::scalar::{Scalar, ONE_RAW};
use crate::vec3::Vec3;

verus! {

/// Draws a whole number from `low` up to, but not including, `high`.
///
/// This is `Rng::gen_range` of the `rand` crate on the generator that
/// `rand::thread_rng` hands out. Of the number drawn only its range is
/// claimed, which the sampler keeps for every state of the generator; with
/// `low >= high` the sampler panics, so such bounds are excluded. Creating
/// the generator fails if the operating system cannot seed it.
#[verifier::external_body]
fn uniform_raw(low: i64, high: i64) -> (r: i64)
    requires
        low < high,
    ensures
        low <= r < high,
{
    rand::thread_rng().gen_range(low, high)
}

/// A random number from zero up to, but not including, one.
pub fn _random_double() -> (r: Scalar)
    ensures
        0 <= r@ < ONE_RAW,
{
    Scalar { raw: uniform_raw(0, ONE_RAW) }
}

/// A random number from minus one up to, but not including, one.
pub fn random_signed_unit() -> (r: Scalar)
    ensures
        -ONE_RAW <= r@ < ONE_RAW,
{
    Scalar { raw: uniform_raw(-ONE_RAW, ONE_RAW) }
}

/// `p` lies strictly inside the sphere of radius one round the origin, no
/// component reaching one.
pub open spec fn in_unit_sphere(p: Vec3) -> bool {
    &&& -ONE_RAW <= p.x@ < ONE_RAW
    &&& -ONE_RAW <= p.y@ < ONE_RAW
    &&& -ONE_RAW <= p.z@ < ONE_RAW
    &&& p.spec_squared_length()@ < ONE_RAW
}

/// Whether `p` lies strictly inside the unit sphere, no component reaching
/// one.
pub fn is_in_unit_sphere(p: &Vec3) -> (r: bool)
    ensures
        r == in_unit_sphere(*p),
{
    -ONE_RAW <= p.x.raw && p.x.raw < ONE_RAW && -ONE_RAW <= p.y.raw && p.y.raw < ONE_RAW
        && -ONE_RAW <= p.z.raw && p.z.raw < ONE_RAW && p.squared_length().raw < ONE_RAW
}

/// A random point strictly inside the unit sphere.
///
/// Points of the surrounding cube are drawn until one falls inside the
/// sphere, which about every second one does. Should `u64::MAX` draws in a row
/// fall outside, the centre is returned.
pub fn random_in_unit_sphere() -> (p: Vec3)
    ensures
        in_unit_sphere(p),
{
    let mut left: u64 = u64::MAX;
    while left > 0
        decreases left,
    {
        let p = Vec3::random();
        if is_in_unit_sphere(&p) {
            return p;
        }
        left = left - 1;
    }
    Vec3::default()
}

} // verus!
