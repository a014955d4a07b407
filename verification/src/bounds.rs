//! Colours stay between black and white.

use vstd::prelude::*;
use crate::accuracy::lemma_unit_vector_components;
use crate::hittable::Hittable;
use crate::hittable_list::{lemma_first_nearest_hit, HittableList};
use crate::material::{spec_scatter, Material, Sample};
use crate::ray::Ray;
use crate::render::{background, first_sample, later_samples, t_max, t_min, trace};
use crate::scalar::{Scalar, ONE_RAW};
use crate::sphere::Sphere;
use crate::vec3::Vec3;

verus! {

/// `x` lies between zero and one.
pub open spec fn is_share(x: Scalar) -> bool {
    0 <= x@ <= ONE_RAW
}

/// Every channel of `c` lies between zero and one.
pub open spec fn is_color(c: Vec3) -> bool {
    is_share(c.x) && is_share(c.y) && is_share(c.z)
}

/// The material takes light away and adds none: the channels of its albedo
/// lie between zero and one.
pub open spec fn dims(material: Material) -> bool {
    match material {
        Material::Lambertian { albedo } => is_color(albedo),
        Material::Metal { albedo, .. } => is_color(albedo),
        Material::Dielectric { .. } => true,
    }
}

/// Every surface of `world` takes light away and adds none.
pub open spec fn all_dim<W: Hittable>(world: &W) -> bool {
    forall|r: Ray, low: Scalar, high: Scalar|
        (#[trigger] world.spec_hit(r, low, high)) matches Some(h) ==> dims(h.mat_ptr)
}

/// The product of two shares is a share.
proof fn lemma_share_of_share(a: Scalar, b: Scalar)
    requires
        is_share(a),
        is_share(b),
    ensures
        is_share(a.spec_mul(b)),
        a.spec_mul(b)@ <= b@,
{
    let one = ONE_RAW as int;
    let p = a@ * b@;
    assert(0 <= p <= one * b@) by (nonlinear_arith)
        requires
            p == a@ * b@,
            0 <= a@ <= one,
            0 <= b@,
    ;
    vstd::arithmetic::div_mod::lemma_div_is_ordered(p, one * b@, one);
    vstd::arithmetic::div_mod::lemma_div_multiples_vanish(b@, one);
    vstd::arithmetic::div_mod::lemma_div_pos_is_pos(p, one);
    assert(one * b@ == b@ * one) by (nonlinear_arith);
}

/// The colour of the sky lies between black and white.
pub proof fn lemma_background_is_color(r: Ray)
    ensures
        is_color(background(r)),
{
    lemma_unit_vector_components(r.direction);
    let one = ONE_RAW as int;
    let half = Scalar { raw: 500_000_000 };
    let height = r.direction.spec_unit().y.spec_add(Scalar { raw: ONE_RAW });
    assert(0 <= height@ <= 2 * one);
    let t = half.spec_mul(height);
    assert(500_000_000 * height@ / one == height@ / 2);
    assert(is_share(t));
    let rest = (Scalar { raw: ONE_RAW }).spec_sub(t);
    assert(is_share(rest));
    assert((Scalar { raw: ONE_RAW }).spec_mul(rest) == rest) by {
        assert(one * rest@ / one == rest@);
    }
    assert((Scalar { raw: ONE_RAW }).spec_mul(t) == t) by {
        assert(one * t@ / one == t@);
    }
    lemma_share_of_share(half, t);
    lemma_share_of_share(Scalar { raw: 700_000_000 }, t);
}

/// The colour that arrives along a ray lies between black and white where
/// every surface takes light away and adds none.
pub proof fn lemma_trace_is_color<W: Hittable>(world: &W, r: Ray, depth: nat, samples: Seq<Sample>)
    requires
        all_dim(world),
    ensures
        is_color(trace(world, r, depth, samples)),
    decreases depth,
{
    if depth > 0 {
        match world.spec_hit(r, t_min(), t_max()) {
            None => {
                lemma_background_is_color(r);
            },
            Some(rec) => {
                match spec_scatter(rec.mat_ptr, r, rec, first_sample(samples)) {
                    None => {},
                    Some((attenuation, scattered)) => {
                        let rest = trace(world, scattered, (depth - 1) as nat, later_samples(samples));
                        lemma_trace_is_color(world, scattered, (depth - 1) as nat, later_samples(samples));
                        assert(is_color(attenuation));
                        lemma_share_of_share(attenuation.x, rest.x);
                        lemma_share_of_share(attenuation.y, rest.y);
                        lemma_share_of_share(attenuation.z, rest.z);
                    },
                }
            },
        }
    }
}

/// Every surface of a scene takes light away and adds none where each of
/// its members does.
pub proof fn lemma_scene_all_dim<T: Hittable>(scene: &HittableList<T>)
    requires
        forall|i: int| 0 <= i < scene.objects@.len() ==> all_dim(&#[trigger] scene.objects@[i]),
    ensures
        all_dim(scene),
{
    assert forall|r: Ray, low: Scalar, high: Scalar|
        (#[trigger] scene.spec_hit(r, low, high)) is Some implies dims(
            scene.spec_hit(r, low, high)->Some_0.mat_ptr,
        ) by {
        lemma_first_nearest_hit(scene.objects@, r, low, high);
        if let Some(h) = scene.spec_hit(r, low, high) {
            let i = choose|i: int|
                0 <= i < scene.objects@.len() && scene.objects@[i].spec_hit(r, low, high) == Some(h);
            assert(all_dim(&scene.objects@[i]));
        }
    }
}

/// A sphere takes light away and adds none where its material does.
pub proof fn lemma_sphere_all_dim(sphere: &Sphere)
    requires
        dims(sphere.mat_ptr),
    ensures
        all_dim(sphere),
{
    assert forall|r: Ray, low: Scalar, high: Scalar|
        (#[trigger] sphere.spec_hit(r, low, high)) is Some implies dims(
            sphere.spec_hit(r, low, high)->Some_0.mat_ptr,
        ) by {
        sphere.lemma_nearest(r, low, high);
    }
}

} // verus!
