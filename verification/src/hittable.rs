//! What a ray can hit.

use vstd::prelude::*;
use crate::hit_record::HitRecord;
use crate::ray::Ray;
use crate::scalar::Scalar;
use crate::vec3::{near_unit, Vec3};

verus! {

/// A surface, or a collection of surfaces, that a ray can be tested against.
pub trait Hittable {
    /// The intersection of `r` with `self` that `hit` reports for the ray
    /// parameters strictly between `t_min` and `t_max`.
    spec fn spec_hit(&self, r: Ray, t_min: Scalar, t_max: Scalar) -> Option<HitRecord>;

    /// The nearest intersection of `r` with `self` whose ray parameter lies
    /// strictly between `t_min` and `t_max`, if there is one.
    fn hit(&self, r: &Ray, t_min: Scalar, t_max: Scalar) -> (rec: Option<HitRecord>)
        ensures
            rec == self.spec_hit(*r, t_min, t_max),
    ;

    /// An intersection that is reported lies strictly inside the interval
    /// asked for.
    proof fn lemma_hit_within(&self, r: Ray, t_min: Scalar, t_max: Scalar)
        ensures
            self.spec_hit(r, t_min, t_max) matches Some(h) ==> t_min@ < h.t@ < t_max@,
    ;

    /// The normal of an intersection that is reported has the length one,
    /// within six billionths of its square, unless it is the zero vector.
    proof fn lemma_hit_unit_normal(&self, r: Ray, t_min: Scalar, t_max: Scalar)
        ensures
            self.spec_hit(r, t_min, t_max) matches Some(h) ==> h.normal.raw_norm_squared() == 0
                || near_unit(h.normal, 6),
    ;

    /// The normal of an intersection that is reported is turned against the
    /// ray: its dot product with the direction of the ray is not above zero.
    proof fn lemma_hit_opposes(&self, r: Ray, t_min: Scalar, t_max: Scalar)
        ensures
            self.spec_hit(r, t_min, t_max) matches Some(h) ==> Vec3::spec_dot(r.direction, h.normal)@
                <= 0,
    ;

    /// The intersection that is reported is the nearest: lowering the upper
    /// end of the interval to `bound` keeps an intersection that lies before
    /// `bound` and loses any other, and none that is farther comes in its
    /// place.
    proof fn lemma_hit_nearest(&self, r: Ray, t_min: Scalar, t_max: Scalar, bound: Scalar)
        requires
            bound@ <= t_max@,
        ensures
            self.spec_hit(r, t_min, bound) == match self.spec_hit(r, t_min, t_max) {
                Some(h) => if h.t@ < bound@ {
                    Some(h)
                } else {
                    None
                },
                None => None,
            },
    ;
}

} // verus!
