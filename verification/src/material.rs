//! Surface materials and how they scatter light.
//!
//! What a material does with a ray is a function of the ray, the
//! intersection and one random `Sample`. `scatter_with` computes that
//! function; `scatter` draws the sample first.

use vstd::prelude::*;
use crate::hit_record::HitRecord;
use crate::random::{_random_double, in_unit_sphere, random_in_unit_sphere};
use crate::ray::Ray;
use crate::scalar::{Scalar, ONE_RAW};
use crate::vec3::Vec3;

verus! {

/// How a surface treats the light that reaches it.
#[derive(Clone, Copy, Debug, PartialEq, Eq, Structural)]
pub enum Material {
    /// A matt surface, which scatters to all sides.
    Lambertian { albedo: Vec3 },
    /// A mirror, blurred by `fuzz`.
    Metal { albedo: Vec3, fuzz: Scalar },
    /// Glass and the like, with refractive index `ir`.
    Dielectric { ir: Scalar },
}

/// The random input to one scattering: a point of the unit sphere, and a
/// number from zero up to, but not including, one.
#[derive(Clone, Copy, Debug, PartialEq, Eq, Structural)]
pub struct Sample {
    pub in_sphere: Vec3,
    pub coin: Scalar,
}

impl Sample {
    /// The sample is one that can be drawn.
    pub open spec fn valid(self) -> bool {
        &&& in_unit_sphere(self.in_sphere)
        &&& 0 <= self.coin@ < ONE_RAW
    }

    /// The sample made of the centre of the sphere and of zero.
    pub open spec fn spec_origin() -> Sample {
        Sample {
            in_sphere: Vec3 { x: Scalar { raw: 0 }, y: Scalar { raw: 0 }, z: Scalar { raw: 0 } },
            coin: Scalar { raw: 0 },
        }
    }

    /// The sample made of the centre of the sphere and of zero.
    pub fn origin() -> (s: Sample)
        ensures
            s == Sample::spec_origin(),
            s.valid(),
    {
        Sample { in_sphere: Vec3::default(), coin: Scalar { raw: 0 } }
    }
}

/// The number one.
pub open spec fn one() -> Scalar {
    Scalar { raw: ONE_RAW }
}

/// The fifth power, multiplied up from the left.
pub open spec fn spec_pow5(x: Scalar) -> Scalar {
    x.spec_mul(x).spec_mul(x).spec_mul(x).spec_mul(x)
}

/// Schlick's approximation of the share of light that a surface between two
/// media reflects: with `r0 = ((1 - ref_idx) / (1 + ref_idx))^2`, it is
/// `r0 + (1 - r0) * (1 - cosine)^5`.
pub open spec fn spec_reflectance(cosine: Scalar, ref_idx: Scalar) -> Scalar {
    let root = one().spec_sub(ref_idx).spec_div(one().spec_add(ref_idx));
    let r0 = root.spec_mul(root);
    r0.spec_add(one().spec_sub(r0).spec_mul(spec_pow5(one().spec_sub(cosine))))
}

/// Where a matt surface with normal `normal` sends a ray, given the random
/// direction `unit`: along their sum, or along the normal where the sum is
/// close to zero.
pub open spec fn lambertian_direction(normal: Vec3, unit: Vec3) -> Vec3 {
    let sum = normal.spec_add(unit);
    if sum.spec_near_zero() {
        normal
    } else {
        sum
    }
}

/// Where a mirror with normal `normal` sends a ray that arrives along
/// `direction`: along the mirror image of the direction's unit vector, moved
/// by `fuzz` times the random point `in_sphere`.
pub open spec fn metal_direction(direction: Vec3, normal: Vec3, fuzz: Scalar, in_sphere: Vec3) -> Vec3 {
    Vec3::spec_reflect(direction.spec_unit(), normal).spec_add(in_sphere.spec_scale(fuzz))
}

/// The ratio of the refractive indices on the two sides of a surface of a
/// body of index `ir`, for a ray that enters it (`front_face`) or leaves it.
pub open spec fn refraction_ratio(ir: Scalar, front_face: bool) -> Scalar {
    if front_face {
        one().spec_div(ir)
    } else {
        ir
    }
}

/// The cosine of the angle between the incoming unit direction and the
/// normal, capped at one.
pub open spec fn spec_cos_theta(unit_direction: Vec3, normal: Vec3) -> Scalar {
    one().spec_min(Vec3::spec_dot(unit_direction.spec_neg(), normal))
}

/// The sine that belongs to the cosine `cos_theta`.
pub open spec fn spec_sin_theta(cos_theta: Scalar) -> Scalar {
    one().spec_sub(cos_theta.spec_mul(cos_theta)).spec_sqrt()
}

/// Whether a surface reflects: always where no refracted ray exists (the
/// ratio times the sine exceeds one), and else where the reflectance exceeds
/// the random number `coin`.
pub open spec fn dielectric_reflects(unit_direction: Vec3, normal: Vec3, ratio: Scalar, coin: Scalar) -> bool {
    let cos_theta = spec_cos_theta(unit_direction, normal);
    ||| ratio.spec_mul(spec_sin_theta(cos_theta))@ > ONE_RAW
    ||| spec_reflectance(cos_theta, ratio)@ > coin@
}

/// Where a transparent body sends a ray that arrives along `direction`.
pub open spec fn dielectric_direction(
    direction: Vec3,
    normal: Vec3,
    front_face: bool,
    ir: Scalar,
    coin: Scalar,
) -> Vec3 {
    let ratio = refraction_ratio(ir, front_face);
    let unit_direction = direction.spec_unit();
    if dielectric_reflects(unit_direction, normal, ratio, coin) {
        Vec3::spec_reflect(unit_direction, normal)
    } else {
        Vec3::spec_refraction(unit_direction, normal, ratio)
    }
}

/// What `material` does with the ray `r_in` that meets it at `rec`, given
/// the random sample `sample`: the colour by which it dims the light, and
/// the ray along which the light goes on from the point of intersection; or
/// nothing, where the light is absorbed.
///
/// A matt surface and a transparent body always scatter. A mirror absorbs
/// the ray whose new direction does not leave the surface.
pub open spec fn spec_scatter(material: Material, r_in: Ray, rec: HitRecord, sample: Sample) -> Option<(Vec3, Ray)> {
    match material {
        Material::Lambertian { albedo } => {
            let direction = lambertian_direction(rec.normal, sample.in_sphere.spec_unit());
            Some((albedo, Ray { origin: rec.p, direction }))
        },
        Material::Metal { albedo, fuzz } => {
            let direction = metal_direction(r_in.direction, rec.normal, fuzz, sample.in_sphere);
            if Vec3::spec_dot(direction, rec.normal)@ > 0 {
                Some((albedo, Ray { origin: rec.p, direction }))
            } else {
                None
            }
        },
        Material::Dielectric { ir } => {
            let direction = dielectric_direction(
                r_in.direction,
                rec.normal,
                rec.front_face,
                ir,
                sample.coin,
            );
            Some((Vec3 { x: one(), y: one(), z: one() }, Ray { origin: rec.p, direction }))
        },
    }
}

fn pow5(x: Scalar) -> (r: Scalar)
    ensures
        r == spec_pow5(x),
{
    x * x * x * x * x
}

/// Schlick's approximation of the reflectance at the cosine `cosine` for
/// the ratio `ref_idx` of refractive indices.
pub fn reflectance(cosine: Scalar, ref_idx: Scalar) -> (r: Scalar)
    ensures
        r == spec_reflectance(cosine, ref_idx),
{
    let one = Scalar { raw: ONE_RAW };
    let root = (one - ref_idx) / (one + ref_idx);
    let r0 = root * root;
    r0 + (one - r0) * pow5(one - cosine)
}

/// What `material` does with the ray `r_in` that meets it at `rec`, for the
/// random sample given: `None` where the light is absorbed, else the colour
/// that dims it and the ray along which it goes on.
pub fn scatter_with(material: &Material, r_in: &Ray, rec: &HitRecord, sample: &Sample) -> (out: Option<(Vec3, Ray)>)
    ensures
        out == spec_scatter(*material, *r_in, *rec, *sample),
{
    let one = Scalar { raw: ONE_RAW };
    match material {
        Material::Lambertian { albedo } => {
            let mut direction = rec.normal + Vec3::unit_vector(&sample.in_sphere);
            if direction.near_zero() {
                direction = rec.normal;
            }
            Some((*albedo, Ray::new(rec.p, direction)))
        },
        Material::Metal { albedo, fuzz } => {
            let reflected = Vec3::reflect(&Vec3::unit_vector(r_in.direction()), &rec.normal);
            let direction = reflected + *fuzz * sample.in_sphere;
            if Vec3::dot(&direction, &rec.normal).raw > 0 {
                Some((*albedo, Ray::new(rec.p, direction)))
            } else {
                None
            }
        },
        Material::Dielectric { ir } => {
            let ratio = if rec.front_face {
                one / *ir
            } else {
                *ir
            };
            let unit_direction = Vec3::unit_vector(r_in.direction());
            let minus_unit = core::ops::Neg::neg(unit_direction);
            let cos_theta = one.min(Vec3::dot(&minus_unit, &rec.normal));
            let sin_theta = (one - cos_theta * cos_theta).sqrt();
            let cannot_refract = (ratio * sin_theta).raw > ONE_RAW;
            let direction = if cannot_refract || reflectance(cos_theta, ratio).raw > sample.coin.raw {
                Vec3::reflect(&unit_direction, &rec.normal)
            } else {
                Vec3::refraction(unit_direction, &rec.normal, ratio)
            };
            Some((Vec3::new(one, one, one), Ray::new(rec.p, direction)))
        },
    }
}

/// Draws the random sample that `material` needs: a point of the unit
/// sphere for a matt surface or a mirror, a number for a transparent body.
pub fn draw_sample(material: &Material) -> (s: Sample)
    ensures
        s.valid(),
        material is Dielectric ==> s.in_sphere == Sample::spec_origin().in_sphere,
        !(material is Dielectric) ==> s.coin == Sample::spec_origin().coin,
{
    match material {
        Material::Dielectric { .. } => Sample { in_sphere: Vec3::default(), coin: _random_double() },
        _ => Sample { in_sphere: random_in_unit_sphere(), coin: Scalar { raw: 0 } },
    }
}

/// A mirror without blur does the same with every sample.
pub proof fn lemma_clear_mirror(albedo: Vec3, r_in: Ray, rec: HitRecord, s1: Sample, s2: Sample)
    ensures
        spec_scatter(Material::Metal { albedo, fuzz: Scalar { raw: 0 } }, r_in, rec, s1)
            == spec_scatter(Material::Metal { albedo, fuzz: Scalar { raw: 0 } }, r_in, rec, s2),
{
    let zero = Scalar { raw: 0 };
    let origin = Vec3 { x: zero, y: zero, z: zero };
    assert(s1.in_sphere.spec_scale(zero) == origin) by {
        lemma_times_zero(s1.in_sphere.x);
        lemma_times_zero(s1.in_sphere.y);
        lemma_times_zero(s1.in_sphere.z);
    }
    assert(s2.in_sphere.spec_scale(zero) == origin) by {
        lemma_times_zero(s2.in_sphere.x);
        lemma_times_zero(s2.in_sphere.y);
        lemma_times_zero(s2.in_sphere.z);
    }
}

/// Zero times any scalar is zero.
pub proof fn lemma_times_zero(x: Scalar)
    ensures
        x.spec_mul(Scalar { raw: 0 }) == (Scalar { raw: 0 }),
{
    assert(x@ * 0 == 0) by (nonlinear_arith);
}

/// Scatters the ray `r_in`, which meets `material` at `rec`, with a random
/// sample drawn for the purpose: `None` where the light is absorbed, else
/// the colour that dims it and the ray along which it goes on.
///
/// The result is what `spec_scatter` gives for some sample that can be
/// drawn. A matt surface and a transparent body always scatter, and of a
/// mirror without blur the result is the same whatever was drawn.
pub fn scatter(material: &Material, r_in: &Ray, rec: &HitRecord) -> (out: Option<(Vec3, Ray)>)
    ensures
        exists|sample: Sample| sample.valid() && out == spec_scatter(*material, *r_in, *rec, sample),
        !(material is Metal) ==> out is Some,
        material matches Material::Metal { fuzz, .. } && fuzz@ == 0 ==> out == spec_scatter(
            *material,
            *r_in,
            *rec,
            Sample::spec_origin(),
        ),
{
    let sample = draw_sample(material);
    proof {
        if let Material::Metal { albedo, fuzz } = *material {
            if fuzz@ == 0 {
                lemma_clear_mirror(albedo, *r_in, *rec, sample, Sample::spec_origin());
            }
        }
    }
    scatter_with(material, r_in, rec, &sample)
}

} // verus!
