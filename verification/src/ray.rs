//! Rays: half-lines given by an origin and a direction.

use vstd::prelude::*;
use crate::scalar::Scalar;
use crate::vec3::Vec3;

verus! {

/// The points `origin + t * direction`. The direction need not have length
/// one.
#[derive(Clone, Copy, Debug, PartialEq, Eq, Structural)]
pub struct Ray {
    pub origin: Vec3,
    pub direction: Vec3,
}

impl Ray {
    /// The point of the ray at parameter `t`.
    pub open spec fn spec_at(self, t: Scalar) -> Vec3 {
        self.origin.spec_add(self.direction.spec_scale(t))
    }

    /// The ray from `origin` along `direction`.
    pub fn new(origin: Vec3, direction: Vec3) -> (r: Ray)
        ensures
            r.origin == origin,
            r.direction == direction,
    {
        Ray { origin, direction }
    }

    /// Where the ray starts.
    pub fn origin(&self) -> (r: &Vec3)
        ensures
            *r == self.origin,
    {
        &self.origin
    }

    /// Where the ray heads.
    pub fn direction(&self) -> (r: &Vec3)
        ensures
            *r == self.direction,
    {
        &self.direction
    }

    /// The point of the ray at parameter `t`: `origin + t * direction`.
    pub fn at(&self, t: Scalar) -> (p: Vec3)
        ensures
            p == self.spec_at(t),
    {
        self.origin + t * self.direction
    }
}

impl Default for Ray {
    fn default() -> (r: Ray)
        ensures
            r.origin == (Vec3 { x: Scalar { raw: 0 }, y: Scalar { raw: 0 }, z: Scalar { raw: 0 } }),
            r.direction == r.origin,
    {
        Ray { origin: Vec3::default(), direction: Vec3::default() }
    }
}

} // verus!
