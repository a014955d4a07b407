//! Rays that arrive along the normal of a surface.

use vstd::prelude::*;
use crate::hit_record::HitRecord;
use crate::material::{lemma_times_zero, refraction_ratio, spec_reflectance, spec_scatter, Material, Sample};
use crate::ray::Ray;
use crate::scalar::{trunc_div, Scalar, ONE_RAW};
use crate::sqrt::lemma_floor_sqrt_is;
use crate::vec3::{has_opposite, Vec3};

verus! {

/// A number whose rounded square is at most one lies between minus two and
/// two.
proof fn lemma_small_square(x: Scalar)
    requires
        x.spec_mul(x)@ <= ONE_RAW,
    ensures
        -2 * ONE_RAW < x@ < 2 * ONE_RAW,
        x.spec_mul(x)@ >= 0,
{
    let one = ONE_RAW as int;
    let p = x@ * x@;
    assert(0 <= p) by (nonlinear_arith)
        requires
            p == x@ * x@,
    ;
    if x@ >= 2 * one || x@ <= -2 * one {
        assert(p >= 4 * (one * one)) by (nonlinear_arith)
            requires
                p == x@ * x@,
                x@ >= 2 * one || x@ <= -2 * one,
                one == 1_000_000_000,
        ;
        assert(one * one == 1_000_000_000_000_000_000);
        vstd::arithmetic::div_mod::lemma_div_is_ordered(4_000_000_000_000_000_000, p, one);
    }
    vstd::arithmetic::div_mod::lemma_div_pos_is_pos(p, one);
}

/// A mirror throws a ray that arrives along the normal straight back: where
/// the normal has length one, so that the dot product of the normal and its
/// opposite is minus one, the mirror image of the opposite of the normal is
/// the normal.
pub proof fn lemma_reflect_along_normal(n: Vec3)
    requires
        has_opposite(n),
        Vec3::spec_dot(n.spec_neg(), n)@ == -ONE_RAW,
    ensures
        Vec3::spec_reflect(n.spec_neg(), n) == n,
{
    let one = ONE_RAW as int;
    let v = n.spec_neg();
    let px = n.x.spec_mul(n.x);
    let py = n.y.spec_mul(n.y);
    let pz = n.z.spec_mul(n.z);
    lemma_product_with_opposite(n.x);
    lemma_product_with_opposite(n.y);
    lemma_product_with_opposite(n.z);
    assert(n.x.spec_mul(v.x)@ == -px@ && n.y.spec_mul(v.y)@ == -py@ && n.z.spec_mul(v.z)@ == -pz@);
    assert(px@ + py@ + pz@ == one);
    lemma_small_square(n.x);
    lemma_small_square(n.y);
    lemma_small_square(n.z);
    let twice = (Scalar { raw: 2_000_000_000 }).spec_mul(Vec3::spec_dot(v, n));
    assert(twice@ == -2 * one);
    assert(n.spec_scale(twice) == Vec3 {
        x: Scalar { raw: (-2 * n.x@) as i64 },
        y: Scalar { raw: (-2 * n.y@) as i64 },
        z: Scalar { raw: (-2 * n.z@) as i64 },
    }) by {
        lemma_times_minus_two(n.x);
        lemma_times_minus_two(n.y);
        lemma_times_minus_two(n.z);
    }
}

/// The product of a scalar and its opposite is not positive, and where it
/// is not below minus one, it is the opposite of the scalar's square.
proof fn lemma_product_with_opposite(x: Scalar)
    requires
        x@ > i64::MIN,
    ensures
        x.spec_mul(x.spec_neg())@ <= 0,
        x.spec_mul(x.spec_neg())@ >= -ONE_RAW ==> x.spec_mul(x)@ == -x.spec_mul(x.spec_neg())@,
{
    let p = x@ * x@;
    assert(0 <= p) by (nonlinear_arith)
        requires
            p == x@ * x@,
    ;
    assert(x@ * (-x@) == -p) by (nonlinear_arith)
        requires
            p == x@ * x@,
    ;
    vstd::arithmetic::div_mod::lemma_div_pos_is_pos(p, ONE_RAW as int);
}

/// A scalar between minus two and two, times minus two, is exact.
proof fn lemma_times_minus_two(x: Scalar)
    requires
        -2 * ONE_RAW < x@ < 2 * ONE_RAW,
    ensures
        x.spec_mul(Scalar { raw: (-2_000_000_000) as i64 })@ == -2 * x@,
{
    let one = ONE_RAW as int;
    let a = x@;
    if a >= 0 {
        assert(trunc_div(a * (-2_000_000_000), one) == -((2_000_000_000 * a) / one));
        assert((2_000_000_000 * a) / one == 2 * a);
    } else {
        assert(trunc_div(a * (-2_000_000_000), one) == (2_000_000_000 * (-a)) / one);
        assert((2_000_000_000 * (-a)) / one == 2 * (-a));
    }
}

/// A scalar times one, or times minus one, is itself, or its opposite.
proof fn lemma_times_unit(x: Scalar)
    ensures
        x.spec_mul(Scalar { raw: ONE_RAW }) == x,
        x.spec_mul(Scalar { raw: (-1_000_000_000) as i64 }) == x.spec_neg(),
        (Scalar { raw: 0 }).spec_mul(x)@ == 0,
{
    let one = ONE_RAW as int;
    let a = x@;
    assert(0 * a == 0) by (nonlinear_arith);
    if a >= 0 {
        assert((a * one) / one == a);
        assert(trunc_div(a * (-1_000_000_000), one) == -((1_000_000_000 * a) / one));
        assert((1_000_000_000 * a) / one == a);
    } else {
        assert(trunc_div(a * one, one) == -(((-a) * one) / one));
        assert(((-a) * one) / one == -a);
        assert(trunc_div(a * (-1_000_000_000), one) == (1_000_000_000 * (-a)) / one);
        assert((1_000_000_000 * (-a)) / one == -a);
    }
}

/// A ray that arrives along the normal crosses the surface without a bend,
/// whatever the ratio of the refractive indices: where the squared length
/// of the normal is one or more, the refraction of the opposite of the
/// normal is the opposite of the normal.
pub proof fn lemma_refraction_along_normal(n: Vec3, etai_over_etat: Scalar)
    requires
        has_opposite(n),
        Vec3::spec_dot(n, n)@ >= ONE_RAW,
    ensures
        Vec3::spec_refraction(n.spec_neg(), n, etai_over_etat) == n.spec_neg(),
{
    let one = Scalar { raw: ONE_RAW };
    let zero = Scalar { raw: 0 };
    let origin = Vec3 { x: zero, y: zero, z: zero };
    let uv = n.spec_neg();
    assert(uv.spec_neg() == n);
    let cos_theta = one.spec_min(Vec3::spec_dot(uv.spec_neg(), n));
    assert(cos_theta == one);
    lemma_times_unit(n.x);
    lemma_times_unit(n.y);
    lemma_times_unit(n.z);
    assert(n.spec_scale(cos_theta) == n);
    assert(uv.spec_add(n) == origin);
    lemma_times_unit(etai_over_etat);
    let across = uv.spec_add(n.spec_scale(cos_theta)).spec_scale(etai_over_etat);
    assert(across == origin);
    assert(across.spec_squared_length() == zero);
    assert(one.spec_sqrt()@ == ONE_RAW) by {
        lemma_floor_sqrt_is(1_000_000_000, 1_000_000_000_000_000_000);
    }
    let along = one.spec_sub(across.spec_squared_length()).spec_abs().spec_sqrt().spec_neg();
    assert(along@ == -ONE_RAW);
    assert(n.spec_scale(along) == uv);
}

/// A mirror without blur throws a ray that meets it along its normal
/// straight back: the scattered ray leaves along the normal, which is the
/// opposite of the unit direction of the incoming ray.
pub proof fn lemma_mirror_throws_back(albedo: Vec3, r_in: Ray, rec: HitRecord, sample: Sample)
    requires
        r_in.direction.spec_unit() == rec.normal.spec_neg(),
        has_opposite(rec.normal),
        Vec3::spec_dot(rec.normal.spec_neg(), rec.normal)@ == -ONE_RAW,
    ensures
        spec_scatter(Material::Metal { albedo, fuzz: Scalar { raw: 0 } }, r_in, rec, sample) == Some(
            (albedo, Ray { origin: rec.p, direction: rec.normal }),
        ),
{
    let n = rec.normal;
    let zero = Scalar { raw: 0 };
    lemma_reflect_along_normal(n);
    lemma_times_zero(sample.in_sphere.x);
    lemma_times_zero(sample.in_sphere.y);
    lemma_times_zero(sample.in_sphere.z);
    assert(sample.in_sphere.spec_scale(zero) == Vec3 { x: zero, y: zero, z: zero });
    assert(n.spec_add(Vec3 { x: zero, y: zero, z: zero }) == n);
    lemma_product_with_opposite(n.x);
    lemma_product_with_opposite(n.y);
    lemma_product_with_opposite(n.z);
    assert(Vec3::spec_dot(n, n)@ == ONE_RAW);
}

/// A transparent body lets a ray that meets it along its normal go straight
/// on, unless it reflects it: and it reflects it just where the random
/// number of the sample is below the reflectance at the cosine one.
pub proof fn lemma_glass_lets_through(ir: Scalar, r_in: Ray, rec: HitRecord, sample: Sample)
    requires
        r_in.direction.spec_unit() == rec.normal.spec_neg(),
        has_opposite(rec.normal),
        Vec3::spec_dot(rec.normal, rec.normal)@ >= ONE_RAW,
    ensures
        spec_scatter(Material::Dielectric { ir }, r_in, rec, sample) matches Some(out)
            && out.1.origin == rec.p && out.1.direction == if spec_reflectance(
            Scalar { raw: ONE_RAW },
            refraction_ratio(ir, rec.front_face),
        )@ > sample.coin@ {
            Vec3::spec_reflect(r_in.direction.spec_unit(), rec.normal)
        } else {
            r_in.direction.spec_unit()
        },
{
    let n = rec.normal;
    let one = Scalar { raw: ONE_RAW };
    let ratio = refraction_ratio(ir, rec.front_face);
    let uv = r_in.direction.spec_unit();
    assert(uv.spec_neg() == n);
    lemma_refraction_along_normal(n, ratio);
    lemma_times_unit(one);
    assert(one.spec_sub(one.spec_mul(one))@ == 0);
    assert((Scalar { raw: 0 }).spec_sqrt()@ == 0) by {
        lemma_floor_sqrt_is(0, 0);
    }
    lemma_times_zero(ratio);
}

} // verus!
