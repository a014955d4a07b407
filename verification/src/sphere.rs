//! Spheres, and where a ray meets them.
//!
//! A ray `origin + t * direction` meets the sphere round `center` with
//! radius `radius` where `a t^2 + 2 b t + c = 0`, with `a` the squared length
//! of the direction, `b` the dot product of the direction and the offset
//! `origin - center`, and `c` the squared length of the offset less the
//! squared radius.

use vstd::prelude::*;
use crate::accuracy::{lemma_unit_of_opposite, lemma_unit_vector_components, lemma_unit_vector_near_unit};
use crate::hit_record::{facing_normal, lemma_facing_normal_opposes, meets_front, HitRecord};
use crate::hittable::Hittable;
use crate::material::Material;
use crate::ray::Ray;
use crate::scalar::{lemma_div_monotonic, lemma_sqrt_raw, trunc_div, Scalar, ONE_RAW};
use crate::vec3::{near_unit, Vec3};

verus! {

/// A sphere. With a negative radius the surface is the same, and its normals
/// point to the centre: the inside of a hollow body.
#[derive(Clone, Copy, Debug, PartialEq, Eq, Structural)]
pub struct Sphere {
    pub center: Vec3,
    pub radius: Scalar,
    pub mat_ptr: Material,
}

/// The coefficient `a`: the squared length of the direction.
pub open spec fn quad_a(r: Ray) -> Scalar {
    Vec3::spec_dot(r.direction, r.direction)
}

/// The coefficient `b`: the dot product of the offset and the direction.
pub open spec fn quad_b(center: Vec3, r: Ray) -> Scalar {
    Vec3::spec_dot(r.origin.spec_sub(center), r.direction)
}

/// The coefficient `c`: the squared length of the offset less the squared
/// radius.
pub open spec fn quad_c(center: Vec3, radius: Scalar, r: Ray) -> Scalar {
    Vec3::spec_dot(r.origin.spec_sub(center), r.origin.spec_sub(center)).spec_sub(
        radius.spec_mul(radius),
    )
}

/// The discriminant `b^2 - a c`.
pub open spec fn discriminant(center: Vec3, radius: Scalar, r: Ray) -> Scalar {
    quad_b(center, r).spec_mul(quad_b(center, r)).spec_sub(
        quad_a(r).spec_mul(quad_c(center, radius, r)),
    )
}

/// The smaller root, `(-b - sqrt(b^2 - a c)) / a`.
pub open spec fn near_root(center: Vec3, radius: Scalar, r: Ray) -> Scalar {
    quad_b(center, r).spec_neg().spec_sub(discriminant(center, radius, r).spec_sqrt()).spec_div(
        quad_a(r),
    )
}

/// The larger root, `(-b + sqrt(b^2 - a c)) / a`.
pub open spec fn far_root(center: Vec3, radius: Scalar, r: Ray) -> Scalar {
    quad_b(center, r).spec_neg().spec_add(discriminant(center, radius, r).spec_sqrt()).spec_div(
        quad_a(r),
    )
}

/// The surface normal at `p`: `(p - center) / radius`, which points away
/// from the centre where the radius is positive and toward it where the
/// radius is negative, scaled to the length one that rounding may have
/// taken from it.
pub open spec fn outward_normal(center: Vec3, radius: Scalar, p: Vec3) -> Vec3 {
    p.spec_sub(center).spec_div(radius).spec_unit()
}

/// `t` lies strictly between `t_min` and `t_max`.
pub open spec fn inside(t: Scalar, t_min: Scalar, t_max: Scalar) -> bool {
    t_min@ < t@ < t_max@
}

/// The exact quotient `x / radius` and its opposite fit a scalar.
pub open spec fn quotient_fits(x: Scalar, radius: Scalar) -> bool {
    -i64::MAX <= trunc_div(x@ * ONE_RAW, radius@) <= i64::MAX
}

/// The exact quotient `(p - center) / radius` and its opposite fit a vector
/// of scalars.
pub open spec fn normal_fits(center: Vec3, radius: Scalar, p: Vec3) -> bool {
    let d = p.spec_sub(center);
    quotient_fits(d.x, radius) && quotient_fits(d.y, radius) && quotient_fits(d.z, radius)
}

impl Sphere {
    /// The line of `r` meets the sphere: the direction is not of length zero
    /// and the discriminant is not negative.
    pub open spec fn meets(self, r: Ray) -> bool {
        quad_a(r)@ > 0 && discriminant(self.center, self.radius, r)@ >= 0
    }

    /// The record of `r` meeting the sphere at ray parameter `t`: the point
    /// of the ray at `t`, the side from which the ray comes, and the surface
    /// normal there, turned against the ray.
    pub open spec fn record_at(self, r: Ray, t: Scalar) -> HitRecord {
        let p = r.spec_at(t);
        let outward = outward_normal(self.center, self.radius, p);
        HitRecord {
            p,
            normal: facing_normal(r.direction, outward),
            t,
            front_face: meets_front(r.direction, outward),
            mat_ptr: self.mat_ptr,
        }
    }

    /// The intersection of `r` with the sphere at the smaller root where
    /// that lies strictly between `t_min` and `t_max`, else at the larger
    /// root where that does, else none.
    #[verifier::opaque]
    pub open spec fn nearest_hit(self, r: Ray, t_min: Scalar, t_max: Scalar) -> Option<HitRecord> {
        if !self.meets(r) {
            None
        } else if inside(near_root(self.center, self.radius, r), t_min, t_max) {
            Some(self.record_at(r, near_root(self.center, self.radius, r)))
        } else if inside(far_root(self.center, self.radius, r), t_min, t_max) {
            Some(self.record_at(r, far_root(self.center, self.radius, r)))
        } else {
            None
        }
    }

    /// Where the line of `r` meets the sphere, the smaller root does not
    /// exceed the larger.
    pub proof fn lemma_roots_ordered(self, r: Ray)
        requires
            self.meets(r),
        ensures
            near_root(self.center, self.radius, r)@ <= far_root(self.center, self.radius, r)@,
    {
        let minus_b = quad_b(self.center, r).spec_neg();
        let root = discriminant(self.center, self.radius, r).spec_sqrt();
        lemma_sqrt_raw(discriminant(self.center, self.radius, r));
        lemma_div_monotonic(minus_b.spec_sub(root), minus_b.spec_add(root), quad_a(r));
    }

    /// The intersection reported is the nearest one inside the interval: it
    /// is at one of the two roots, and at the smaller one where that lies
    /// inside. None is reported only where neither root lies inside. The
    /// record's flag and normal agree with the ray and the surface normal.
    pub proof fn lemma_nearest(self, r: Ray, t_min: Scalar, t_max: Scalar)
        ensures
            match self.nearest_hit(r, t_min, t_max) {
                Some(h) => {
                    &&& self.meets(r)
                    &&& inside(h.t, t_min, t_max)
                    &&& h.t == near_root(self.center, self.radius, r) || h.t == far_root(
                        self.center,
                        self.radius,
                        r,
                    )
                    &&& inside(near_root(self.center, self.radius, r), t_min, t_max) ==> h.t
                        == near_root(self.center, self.radius, r)
                    &&& h == self.record_at(r, h.t)
                    &&& h.oriented(r.direction, outward_normal(self.center, self.radius, h.p))
                },
                None => self.meets(r) ==> !inside(near_root(self.center, self.radius, r), t_min, t_max)
                    && !inside(far_root(self.center, self.radius, r), t_min, t_max),
            },
    {
        reveal(Sphere::nearest_hit);
    }

    /// An intersection that is reported lies strictly inside the interval
    /// asked for.
    pub proof fn lemma_inside(self, r: Ray, t_min: Scalar, t_max: Scalar)
        ensures
            self.nearest_hit(r, t_min, t_max) matches Some(h) ==> t_min@ < h.t@ < t_max@,
    {
        reveal(Sphere::nearest_hit);
    }

    /// Lowering the upper end of the interval to `bound` keeps an
    /// intersection that lies before `bound` and loses any other: none that
    /// is farther comes in its place.
    pub proof fn lemma_narrow(self, r: Ray, t_min: Scalar, t_max: Scalar, bound: Scalar)
        requires
            bound@ <= t_max@,
        ensures
            self.nearest_hit(r, t_min, bound) == match self.nearest_hit(r, t_min, t_max) {
                Some(h) => if h.t@ < bound@ {
                    Some(h)
                } else {
                    None
                },
                None => None,
            },
    {
        reveal(Sphere::nearest_hit);
        if self.meets(r) {
            self.lemma_roots_ordered(r);
        }
    }

    /// A sphere and the sphere round the same centre with the opposite
    /// radius are met by the same rays, at the same ray parameter and in the
    /// same point.
    pub proof fn lemma_opposite_radius_same_point(
        self,
        other: Sphere,
        r: Ray,
        t_min: Scalar,
        t_max: Scalar,
    )
        requires
            other.center == self.center,
            other.radius@ == -self.radius@,
        ensures
            match (self.nearest_hit(r, t_min, t_max), other.nearest_hit(r, t_min, t_max)) {
                (Some(h), Some(g)) => g.t == h.t && g.p == h.p,
                (None, None) => true,
                _ => false,
            },
    {
        reveal(Sphere::nearest_hit);
        let a = self.radius@;
        assert((-a) * (-a) == a * a) by (nonlinear_arith);
        assert(other.radius.spec_mul(other.radius) == self.radius.spec_mul(self.radius));
    }

    /// At any point, the surface normal of the sphere round the same centre
    /// with the opposite radius is the opposite normal, unless the exact
    /// quotient is too large for a scalar.
    pub proof fn lemma_opposite_radius_opposite_normal(self, other: Sphere, p: Vec3)
        requires
            other.center == self.center,
            other.radius@ == -self.radius@,
            self.radius@ != 0,
            normal_fits(self.center, self.radius, p),
        ensures
            outward_normal(other.center, other.radius, p) == outward_normal(
                self.center,
                self.radius,
                p,
            ).spec_neg(),
    {
        let quotient = p.spec_sub(self.center).spec_div(self.radius);
        assert(p.spec_sub(other.center).spec_div(other.radius) == quotient.spec_neg());
        lemma_unit_of_opposite(quotient);
    }

    /// The normal of an intersection is turned against the ray, and it has
    /// the length one, within six billionths of its square, unless it is the
    /// zero vector: that it is where the point of intersection lies so near
    /// the centre that its distance over the radius rounds to zero.
    pub proof fn lemma_hit_normal(self, r: Ray, t_min: Scalar, t_max: Scalar)
        ensures
            self.nearest_hit(r, t_min, t_max) matches Some(h) ==> {
                &&& Vec3::spec_dot(r.direction, h.normal)@ <= 0
                &&& h.normal.raw_norm_squared() == 0 || near_unit(h.normal, 6)
            },
    {
        reveal(Sphere::nearest_hit);
        if let Some(h) = self.nearest_hit(r, t_min, t_max) {
            let quotient = h.p.spec_sub(self.center).spec_div(self.radius);
            let outward = quotient.spec_unit();
            lemma_unit_vector_components(quotient);
            lemma_facing_normal_opposes(r.direction, outward);
            assert(0 <= outward.x@ * outward.x@ && 0 <= outward.y@ * outward.y@ && 0 <= outward.z@
                * outward.z@) by (nonlinear_arith);
            assert((-outward.x@) * (-outward.x@) == outward.x@ * outward.x@) by (nonlinear_arith);
            assert((-outward.y@) * (-outward.y@) == outward.y@ * outward.y@) by (nonlinear_arith);
            assert((-outward.z@) * (-outward.z@) == outward.z@ * outward.z@) by (nonlinear_arith);
            assert(outward.spec_neg().raw_norm_squared() == outward.raw_norm_squared());
            assert(0 <= quotient.x@ * quotient.x@ && 0 <= quotient.y@ * quotient.y@ && 0
                <= quotient.z@ * quotient.z@) by (nonlinear_arith);
            if quotient.raw_norm_squared() > 0 {
                lemma_unit_vector_near_unit(quotient);
            }
        }
    }

    /// The record of `r` meeting the sphere at ray parameter `t`.
    fn record(&self, r: &Ray, t: Scalar) -> (rec: HitRecord)
        ensures
            rec == self.record_at(*r, t),
    {
        let p = r.at(t);
        let outward = Vec3::unit_vector(&((p - self.center) / self.radius));
        let mut rec = HitRecord { p, normal: outward, t, front_face: true, mat_ptr: self.mat_ptr };
        rec.set_face_normal(r, &outward);
        rec
    }
}

impl Hittable for Sphere {
    open spec fn spec_hit(&self, r: Ray, t_min: Scalar, t_max: Scalar) -> Option<HitRecord> {
        self.nearest_hit(r, t_min, t_max)
    }

    fn hit(&self, r: &Ray, t_min: Scalar, t_max: Scalar) -> (rec: Option<HitRecord>) {
        proof {
            reveal(Sphere::nearest_hit);
        }
        let oc: Vec3 = *r.origin() - self.center;
        let a = Vec3::dot(r.direction(), r.direction());
        let b = Vec3::dot(&oc, r.direction());
        let c = Vec3::dot(&oc, &oc) - self.radius * self.radius;
        let discriminant = b * b - a * c;
        if a.raw > 0 && discriminant.raw >= 0 {
            let root = discriminant.sqrt();
            let minus_b = core::ops::Neg::neg(b);
            let mut temp = (minus_b - root) / a;
            if temp.raw < t_max.raw && temp.raw > t_min.raw {
                return Some(self.record(r, temp));
            }
            temp = (minus_b + root) / a;
            if temp.raw < t_max.raw && temp.raw > t_min.raw {
                return Some(self.record(r, temp));
            }
        }
        None
    }

    proof fn lemma_hit_within(&self, r: Ray, t_min: Scalar, t_max: Scalar) {
        self.lemma_inside(r, t_min, t_max);
    }

    proof fn lemma_hit_unit_normal(&self, r: Ray, t_min: Scalar, t_max: Scalar) {
        self.lemma_hit_normal(r, t_min, t_max);
    }

    proof fn lemma_hit_opposes(&self, r: Ray, t_min: Scalar, t_max: Scalar) {
        self.lemma_hit_normal(r, t_min, t_max);
    }

    proof fn lemma_hit_nearest(&self, r: Ray, t_min: Scalar, t_max: Scalar, bound: Scalar) {
        self.lemma_narrow(r, t_min, t_max, bound);
    }
}

} // verus!
