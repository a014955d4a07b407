//! The colour that arrives along a ray, and what becomes of it in a pixel.

use vstd::prelude::*;
use crate::bounds::{all_dim, is_color, lemma_trace_is_color};
use crate::hittable::Hittable;
use crate::material::{scatter, scatter_with, spec_scatter, Sample};
use crate::ray::Ray;
use crate::scalar::{sc, Scalar, ONE_RAW};
use crate::sphere::{discriminant, near_root};
use crate::vec3::Vec3;

verus! {

/// The least ray parameter at which a surface counts as met, in billionths:
/// a ray does not meet again the surface that it starts on.
pub const T_MIN_RAW: i64 = 1_000_000;

/// The factor, in billionths, that takes a colour channel to the range of a
/// byte.
pub const CHANNEL_SCALE_RAW: i64 = 255_990_000_000;

/// The lower end of the interval in which surfaces are looked for.
pub open spec fn t_min() -> Scalar {
    sc(T_MIN_RAW)
}

/// The upper end of that interval: the largest scalar.
pub open spec fn t_max() -> Scalar {
    sc(i64::MAX)
}

/// No light.
pub open spec fn black() -> Vec3 {
    Vec3 { x: sc(0), y: sc(0), z: sc(0) }
}

/// The colour of the sky along `r`: with `t = 0.5 * (y + 1)` for the height
/// `y` of the unit direction, the blend `(1 - t) * white + t * blue` of white
/// and the blue `(0.5, 0.7, 1.0)`.
pub open spec fn background(r: Ray) -> Vec3 {
    let white = Vec3 { x: sc(ONE_RAW), y: sc(ONE_RAW), z: sc(ONE_RAW) };
    let blue = Vec3 { x: sc(500_000_000), y: sc(700_000_000), z: sc(ONE_RAW) };
    let t = sc(500_000_000).spec_mul(r.direction.spec_unit().y.spec_add(sc(ONE_RAW)));
    white.spec_scale(sc(ONE_RAW).spec_sub(t)).spec_add(blue.spec_scale(t))
}

/// The sample for the surface met first: the first of `samples`, or the
/// origin sample where none is left.
pub open spec fn first_sample(samples: Seq<Sample>) -> Sample {
    if samples.len() > 0 {
        samples[0]
    } else {
        Sample::spec_origin()
    }
}

/// The samples for the surfaces met after the first.
pub open spec fn later_samples(samples: Seq<Sample>) -> Seq<Sample> {
    if samples.len() > 0 {
        samples.drop_first()
    } else {
        samples
    }
}

/// The colour that arrives along `r` in `world` when the light is followed
/// over at most `depth` surfaces and `samples` holds the random sample for
/// each of them, the first for the surface met first.
///
/// With no surface left to follow it is black. Where `r` meets nothing it is
/// the colour of the sky. Where the surface met absorbs the light it is
/// black, and else the colour that arrives along the scattered ray, dimmed
/// channel by channel by the surface.
pub open spec fn trace<W: Hittable>(world: &W, r: Ray, depth: nat, samples: Seq<Sample>) -> Vec3
    decreases depth,
{
    if depth == 0 {
        black()
    } else {
        match world.spec_hit(r, t_min(), t_max()) {
            None => background(r),
            Some(rec) => match spec_scatter(rec.mat_ptr, r, rec, first_sample(samples)) {
                None => black(),
                Some((attenuation, scattered)) => attenuation.spec_mul(
                    trace(world, scattered, (depth - 1) as nat, later_samples(samples)),
                ),
            },
        }
    }
}

/// `samples` holds `depth` samples, each of which can be drawn.
pub open spec fn valid_samples(samples: Seq<Sample>, depth: nat) -> bool {
    &&& samples.len() == depth
    &&& forall|i: int| 0 <= i < samples.len() ==> (#[trigger] samples[i]).valid()
}

/// `color` is what `trace` gives for `samples`, which can be drawn.
pub open spec fn traced_with<W: Hittable>(
    world: &W,
    r: Ray,
    depth: nat,
    samples: Seq<Sample>,
    color: Vec3,
) -> bool {
    valid_samples(samples, depth) && color == trace(world, r, depth, samples)
}

/// The colour of the sky along `r`.
pub fn sky_color(r: &Ray) -> (color: Vec3)
    ensures
        color == background(*r),
{
    let one = Scalar { raw: ONE_RAW };
    let half = Scalar { raw: 500_000_000 };
    let unit_direction = Vec3::unit_vector(r.direction());
    let t = half * (unit_direction.get_y() + one);
    Vec3::new(one, one, one) * (one - t) + Vec3::new(half, Scalar { raw: 700_000_000 }, one) * t
}

/// The colour that arrives along `r` in `world`, the light followed over at
/// most `depth` surfaces, with the random samples given: the sample at
/// `start` for the surface met first, the next one for the next surface,
/// and the origin sample once `samples` is used up.
fn trace_from<W: Hittable>(r: &Ray, world: &W, depth: u32, samples: &Vec<Sample>, start: usize) -> (color:
    Vec3)
    requires
        start <= samples@.len(),
    ensures
        color == trace(world, *r, depth as nat, samples@.subrange(start as int, samples@.len() as int)),
    decreases depth,
{
    if depth == 0 {
        return Vec3::default();
    }
    match world.hit(r, Scalar { raw: T_MIN_RAW }, Scalar::max_value()) {
        None => sky_color(r),
        Some(rec) => {
            let ghost rest = samples@.subrange(start as int, samples@.len() as int);
            let left = start < samples.len();
            let sample = if left {
                samples[start]
            } else {
                Sample::origin()
            };
            let next = if left {
                start + 1
            } else {
                start
            };
            assert(later_samples(rest) =~= samples@.subrange(next as int, samples@.len() as int));
            match scatter_with(&rec.mat_ptr, r, &rec, &sample) {
                None => Vec3::default(),
                Some((attenuation, scattered)) => attenuation * trace_from(
                    &scattered,
                    world,
                    depth - 1,
                    samples,
                    next,
                ),
            }
        },
    }
}

/// The colour that arrives along `r` in `world`, the light followed over at
/// most `depth` surfaces, with the random samples given: the first of
/// `samples` for the surface met first, and so on. Once `samples` is used up
/// the origin sample stands in.
///
/// The colour lies between black and white where no surface of `world` adds
/// light.
pub fn ray_color_with<W: Hittable>(r: &Ray, world: &W, depth: u32, samples: &Vec<Sample>) -> (color:
    Vec3)
    ensures
        color == trace(world, *r, depth as nat, samples@),
        all_dim(world) ==> is_color(color),
{
    assert(samples@.subrange(0, samples@.len() as int) =~= samples@);
    proof {
        if all_dim(world) {
            lemma_trace_is_color(world, *r, depth as nat, samples@);
        }
    }
    trace_from(r, world, depth, samples, 0)
}

/// The colour that arrives along `r` in `world`, the light followed over at
/// most `depth` surfaces, a random sample drawn at each.
///
/// With `depth` zero the colour is black, whatever the ray and the scene.
/// Else, where `r` meets nothing, it is the colour of the sky. Always it is
/// what `trace` gives for some samples that can be drawn, and it lies
/// between black and white where no surface of `world` adds light.
pub fn ray_color<W: Hittable>(r: &Ray, world: &W, depth: u32) -> (color: Vec3)
    ensures
        depth == 0 ==> color == black(),
        depth > 0 && world.spec_hit(*r, t_min(), t_max()) is None ==> color == background(*r),
        exists|samples: Seq<Sample>| traced_with(world, *r, depth as nat, samples, color),
        all_dim(world) ==> is_color(color),
    decreases depth,
{
    let ghost idle = Seq::new(depth as nat, |i: int| Sample::spec_origin());
    if depth == 0 {
        assert(traced_with(world, *r, 0, idle, black()));
        return Vec3::default();
    }
    match world.hit(r, Scalar { raw: T_MIN_RAW }, Scalar::max_value()) {
        None => {
            let color = sky_color(r);
            assert(traced_with(world, *r, depth as nat, idle, color));
            proof {
                if all_dim(world) {
                    lemma_trace_is_color(world, *r, depth as nat, idle);
                }
            }
            color
        },
        Some(rec) => {
            let scattered = scatter(&rec.mat_ptr, r, &rec);
            let ghost sample = choose|sample: Sample|
                sample.valid() && scattered == spec_scatter(rec.mat_ptr, *r, rec, sample);
            match scattered {
                None => {
                    let ghost samples = idle.update(0, sample);
                    assert(traced_with(world, *r, depth as nat, samples, black()));
                    Vec3::default()
                },
                Some((attenuation, next)) => {
                    let rest = ray_color(&next, world, depth - 1);
                    let color = attenuation * rest;
                    proof {
                        let less = (depth - 1) as nat;
                        let tail = choose|tail: Seq<Sample>| traced_with(world, next, less, tail, rest);
                        let samples = seq![sample] + tail;
                        assert(later_samples(samples) =~= tail);
                        assert(traced_with(world, *r, depth as nat, samples, color));
                        if all_dim(world) {
                            lemma_trace_is_color(world, *r, depth as nat, samples);
                        }
                    }
                    color
                },
            }
        },
    }
}

/// `x` where it lies between `min` and `max`, else the nearer of the two.
pub fn clamp(x: Scalar, min: Scalar, max: Scalar) -> (r: Scalar)
    ensures
        r == if x@ < min@ {
            min
        } else if x@ > max@ {
            max
        } else {
            x
        },
{
    if x.raw < min.raw {
        return min;
    } else if x.raw > max.raw {
        return max;
    }
    x
}

/// The value of a colour channel in a pixel: the mean of the sum `total`
/// of `samples_per_pixel` samples, its square root taken to correct for
/// gamma, times 255.99, the fraction dropped.
pub open spec fn channel_value(total: Scalar, samples_per_pixel: i32) -> int {
    sc(CHANNEL_SCALE_RAW).spec_mul(
        total.spec_div(sc((samples_per_pixel * ONE_RAW) as i64)).spec_sqrt(),
    ).spec_trunc()
}

/// The red, green and blue values of the pixel whose samples add up to
/// `pixel_color`.
pub fn pixel_rgb(pixel_color: Vec3, samples_per_pixel: i32) -> (rgb: (i32, i32, i32))
    ensures
        rgb.0 == channel_value(pixel_color.x, samples_per_pixel),
        rgb.1 == channel_value(pixel_color.y, samples_per_pixel),
        rgb.2 == channel_value(pixel_color.z, samples_per_pixel),
{
    let mean = pixel_color / Scalar::from_int(samples_per_pixel);
    let col = Vec3::new(mean.get_x().sqrt(), mean.get_y().sqrt(), mean.get_z().sqrt());
    let scale = Scalar { raw: CHANNEL_SCALE_RAW };
    let ir = (scale * col.get_x()).trunc();
    let ig = (scale * col.get_y()).trunc();
    let ib = (scale * col.get_z()).trunc();
    (ir, ig, ib)
}

/// The ray parameter at which the line of `r` enters the sphere round
/// `center` with radius `radius`: the smaller root of the quadratic, or minus
/// one where the discriminant is negative and the line misses the sphere.
pub fn hit_sphere(center: Vec3, radius: Scalar, r: &Ray) -> (t: Scalar)
    ensures
        t == if discriminant(center, radius, *r)@ < 0 {
            sc((-ONE_RAW) as i64)
        } else {
            near_root(center, radius, *r)
        },
{
    let oc: Vec3 = *r.origin() - center;
    let a = Vec3::dot(r.direction(), r.direction());
    let half_b = Vec3::dot(&oc, r.direction());
    let c = Vec3::dot(&oc, &oc) - radius * radius;
    let disc = half_b * half_b - a * c;
    if disc.raw < 0 {
        Scalar { raw: -ONE_RAW }
    } else {
        (core::ops::Neg::neg(half_b) - disc.sqrt()) / a
    }
}

} // verus!
