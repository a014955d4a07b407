//! What is known of the point where a ray meets a surface.

use vstd::prelude::*;
use crate::material::Material;
use crate::ray::Ray;
use crate::scalar::{trunc_div, Scalar, ONE_RAW};
use crate::vec3::Vec3;

verus! {

/// An intersection of a ray with a surface.
///
/// `normal` is the surface normal turned against the ray, and `front_face`
/// tells whether the ray came from the side that the surface's own normal
/// points to.
#[derive(Clone, Copy, Debug, PartialEq, Eq, Structural)]
pub struct HitRecord {
    pub p: Vec3,
    pub normal: Vec3,
    pub t: Scalar,
    pub front_face: bool,
    pub mat_ptr: Material,
}

/// A ray along `direction` meets the front of a surface whose normal is
/// `outward_normal`: the two point against each other.
pub open spec fn meets_front(direction: Vec3, outward_normal: Vec3) -> bool {
    Vec3::spec_dot(direction, outward_normal)@ < 0
}

/// `outward_normal` turned against a ray along `direction`.
pub open spec fn facing_normal(direction: Vec3, outward_normal: Vec3) -> Vec3 {
    if meets_front(direction, outward_normal) {
        outward_normal
    } else {
        outward_normal.spec_neg()
    }
}

impl HitRecord {
    /// The record's flag and normal agree with a ray along `direction` and a
    /// surface normal `outward_normal`.
    pub open spec fn oriented(self, direction: Vec3, outward_normal: Vec3) -> bool {
        &&& self.front_face == meets_front(direction, outward_normal)
        &&& self.normal == facing_normal(direction, outward_normal)
    }

    /// Records on which side the ray `r` meets the surface, and stores the
    /// normal turned against the ray.
    pub fn set_face_normal(&mut self, r: &Ray, outward_normal: &Vec3)
        ensures
            final(self).oriented(r.direction, *outward_normal),
            final(self).p == old(self).p,
            final(self).t == old(self).t,
            final(self).mat_ptr == old(self).mat_ptr,
    {
        self.front_face = Vec3::dot(r.direction(), outward_normal).raw < 0;
        self.normal = if self.front_face {
            *outward_normal
        } else {
            core::ops::Neg::neg(*outward_normal)
        };
    }

    /// The point of intersection.
    pub fn p(&self) -> (r: Vec3)
        ensures
            r == self.p,
    {
        self.p
    }

    /// The ray parameter of the intersection.
    pub fn t(&self) -> (r: Scalar)
        ensures
            r == self.t,
    {
        self.t
    }

    /// The normal, turned against the ray.
    pub fn normal(&self) -> (r: Vec3)
        ensures
            r == self.normal,
    {
        self.normal
    }

    /// Replaces the point of intersection.
    pub fn set_p(&mut self, val: Vec3)
        ensures
            *final(self) == (HitRecord { p: val, ..*old(self) }),
    {
        self.p = val
    }

    /// Replaces the ray parameter.
    pub fn set_t(&mut self, val: Scalar)
        ensures
            *final(self) == (HitRecord { t: val, ..*old(self) }),
    {
        self.t = val
    }

    /// Replaces the normal.
    pub fn set_normal(&mut self, val: Vec3)
        ensures
            *final(self) == (HitRecord { normal: val, ..*old(self) }),
    {
        self.normal = val
    }
}

/// The product of a number with the opposite of a number between minus one
/// and one is the opposite of their product, as far as a scalar can hold it.
proof fn lemma_product_of_opposite(x: Scalar, d: Scalar)
    requires
        -ONE_RAW <= x@ <= ONE_RAW,
    ensures
        ({
            let product = x.spec_mul(d)@;
            let opposite = x.spec_neg().spec_mul(d)@;
            ||| opposite == -product
            ||| product == i64::MAX && opposite == i64::MIN
            ||| product == i64::MIN && opposite == i64::MAX
        }),
{
    let one = ONE_RAW as int;
    let p = x@ * d@;
    assert((-x@) * d@ == -p) by (nonlinear_arith)
        requires
            p == x@ * d@,
    ;
    assert(-0x8000_0000_0000_0000 * one <= p <= 0x8000_0000_0000_0000 * one) by (nonlinear_arith)
        requires
            p == x@ * d@,
            -one <= x@ <= one,
            -0x8000_0000_0000_0000 <= d@ <= 0x7fff_ffff_ffff_ffff,
            one == 1_000_000_000,
    ;
    if p >= 0 {
        assert(trunc_div(p, one) <= 0x8000_0000_0000_0000);
    } else {
        assert(trunc_div(-p, one) <= 0x8000_0000_0000_0000);
    }
}

/// The normal that is stored is turned against the ray: the dot product of
/// the direction and `facing_normal` is not above zero. The components of
/// the surface normal lie between minus one and one.
pub proof fn lemma_facing_normal_opposes(direction: Vec3, outward_normal: Vec3)
    requires
        -ONE_RAW <= outward_normal.x@ <= ONE_RAW,
        -ONE_RAW <= outward_normal.y@ <= ONE_RAW,
        -ONE_RAW <= outward_normal.z@ <= ONE_RAW,
    ensures
        Vec3::spec_dot(direction, facing_normal(direction, outward_normal))@ <= 0,
{
    lemma_product_of_opposite(outward_normal.x, direction.x);
    lemma_product_of_opposite(outward_normal.y, direction.y);
    lemma_product_of_opposite(outward_normal.z, direction.z);
}

} // verus!
