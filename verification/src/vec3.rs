//! Vectors, points and colours: triples of scalars.

use vstd::prelude::*;
use crate::random::{random_in_unit_sphere, random_signed_unit, in_unit_sphere};
use crate::scalar::{scalar_of, trunc_div, Scalar, ONE_RAW};
use crate::sqrt::{floor_sqrt, floor_sqrt_u128, lemma_floor_sqrt_is, lemma_floor_sqrt_monotonic};

verus! {

/// The bound, in billionths, below which a component counts as zero.
pub const NEAR_ZERO_RAW: i64 = 10;

/// A vector counts as short where the sum of the squares of its raw
/// components stays below this bound: where it is shorter than about 4.29.
pub const SHORT_NORM_SQUARED: u128 = 0x1_0000_0000_0000_0000;

/// A triple of scalars.
#[derive(Clone, Copy, Debug, PartialEq, Eq, Structural)]
pub struct Vec3 {
    pub x: Scalar,
    pub y: Scalar,
    pub z: Scalar,
}

/// The squared length of `v` differs from one by at most `tol` billionths.
pub open spec fn near_unit(v: Vec3, tol: int) -> bool {
    let excess = v.raw_norm_squared() - ONE_RAW * ONE_RAW;
    -tol * ONE_RAW <= excess <= tol * ONE_RAW
}

/// No component of `v` is the least scalar, so that `v` is the opposite of
/// its opposite.
pub open spec fn has_opposite(v: Vec3) -> bool {
    v.x@ > i64::MIN && v.y@ > i64::MIN && v.z@ > i64::MIN
}

fn square_raw(a: i64) -> (r: u128)
    ensures
        r == a * a,
        r <= 0x4000_0000_0000_0000_0000_0000_0000_0000,
{
    let m: u128 = if a < 0 {
        (-(a as i128)) as u128
    } else {
        a as u128
    };
    assert(m * m == a * a && m * m <= 0x4000_0000_0000_0000_0000_0000_0000_0000)
        by (nonlinear_arith)
        requires
            m == a || m == -a,
            0 <= m <= 0x8000_0000_0000_0000,
    ;
    m * m
}

/// The component `x` of a vector, enlarged by `scale` and divided by the
/// length `root` of the enlarged vector. Where the vector is enlarged, the
/// sum of the squares of its components is `sum`.
fn unit_part_of(x: i64, scale: i64, sum: u128, root: u64) -> (r: Scalar)
    requires
        scale == 1 || (scale == ONE_RAW && x * x <= sum < SHORT_NORM_SQUARED),
        0 < root,
    ensures
        r == scalar_of(trunc_div((x * scale) * ONE_RAW, root as int)),
{
    assert(ONE_RAW == 1_000_000_000);
    if scale == 1 {
        let num: i128 = (x as i128) * (ONE_RAW as i128);
        Scalar::from_wide(num / (root as i128))
    } else {
        assert(-0x1_0000_0000 < x < 0x1_0000_0000) by (nonlinear_arith)
            requires
                x * x < 0x1_0000_0000_0000_0000,
        ;
        let enlarged: i128 = (x as i128) * (ONE_RAW as i128);
        let num: i128 = enlarged * (ONE_RAW as i128);
        Scalar::from_wide(num / (root as i128))
    }
}

impl Vec3 {
    /// The sum, component by component.
    pub open spec fn spec_add(self, v: Vec3) -> Vec3 {
        Vec3 { x: self.x.spec_add(v.x), y: self.y.spec_add(v.y), z: self.z.spec_add(v.z) }
    }

    /// The difference, component by component.
    pub open spec fn spec_sub(self, v: Vec3) -> Vec3 {
        Vec3 { x: self.x.spec_sub(v.x), y: self.y.spec_sub(v.y), z: self.z.spec_sub(v.z) }
    }

    /// The negation, component by component.
    pub open spec fn spec_neg(self) -> Vec3 {
        Vec3 { x: self.x.spec_neg(), y: self.y.spec_neg(), z: self.z.spec_neg() }
    }

    /// The product, component by component.
    pub open spec fn spec_mul(self, v: Vec3) -> Vec3 {
        Vec3 { x: self.x.spec_mul(v.x), y: self.y.spec_mul(v.y), z: self.z.spec_mul(v.z) }
    }

    /// Each component multiplied by `t`.
    pub open spec fn spec_scale(self, t: Scalar) -> Vec3 {
        Vec3 { x: self.x.spec_mul(t), y: self.y.spec_mul(t), z: self.z.spec_mul(t) }
    }

    /// Each component divided by `t`.
    pub open spec fn spec_div(self, t: Scalar) -> Vec3 {
        Vec3 { x: self.x.spec_div(t), y: self.y.spec_div(t), z: self.z.spec_div(t) }
    }

    /// The dot product: the three products, each rounded, summed from the
    /// first to the last.
    pub open spec fn spec_dot(v: Vec3, u: Vec3) -> Scalar {
        u.x.spec_mul(v.x).spec_add(u.y.spec_mul(v.y)).spec_add(u.z.spec_mul(v.z))
    }

    /// The dot product of the vector with itself.
    pub open spec fn spec_squared_length(self) -> Scalar {
        Vec3::spec_dot(self, self)
    }

    /// The sum of the squares of the raw components.
    pub open spec fn raw_norm_squared(self) -> int {
        self.x@ * self.x@ + self.y@ * self.y@ + self.z@ * self.z@
    }

    /// The Euclidean length: the root of the exact sum of squares, rounded
    /// down to a billionth and saturated.
    pub open spec fn spec_length(self) -> Scalar {
        scalar_of(floor_sqrt(self.raw_norm_squared()))
    }

    /// The factor by which the vector is enlarged before it is normalised:
    /// `10^9` for a short vector, so that its length keeps nine digits
    /// more, and one for any other.
    pub open spec fn unit_scale(self) -> int {
        if self.raw_norm_squared() < SHORT_NORM_SQUARED {
            ONE_RAW as int
        } else {
            1
        }
    }

    /// The length, in raw units and rounded down, of the vector enlarged by
    /// `unit_scale`.
    pub open spec fn scaled_length(self) -> int {
        floor_sqrt(self.raw_norm_squared() * (self.unit_scale() * self.unit_scale()))
    }

    /// The component `x` of the vector, divided by the vector's length and
    /// rounded toward zero.
    pub open spec fn unit_part(self, x: Scalar) -> Scalar {
        scalar_of(trunc_div((x@ * self.unit_scale()) * ONE_RAW, self.scaled_length()))
    }

    /// The vector divided by its length. The zero vector stays as it is.
    pub open spec fn spec_unit(self) -> Vec3 {
        if self.raw_norm_squared() == 0 {
            self
        } else {
            Vec3 { x: self.unit_part(self.x), y: self.unit_part(self.y), z: self.unit_part(self.z) }
        }
    }

    /// Every component is less than ten billionths away from zero.
    pub open spec fn spec_near_zero(self) -> bool {
        &&& -NEAR_ZERO_RAW < self.x@ < NEAR_ZERO_RAW
        &&& -NEAR_ZERO_RAW < self.y@ < NEAR_ZERO_RAW
        &&& -NEAR_ZERO_RAW < self.z@ < NEAR_ZERO_RAW
    }

    /// The mirror image of `v` at a surface with normal `n`:
    /// `v - (2 * dot(v, n)) * n`.
    pub open spec fn spec_reflect(v: Vec3, n: Vec3) -> Vec3 {
        let twice = (Scalar { raw: (2 * ONE_RAW) as i64 }).spec_mul(Vec3::spec_dot(v, n));
        v.spec_sub(n.spec_scale(twice))
    }

    /// The direction of `uv` after it crosses a surface with normal `n`
    /// between media whose refractive indices have the ratio
    /// `etai_over_etat`. With `c = min(1, dot(-uv, n))`, the part across the
    /// normal is `etai_over_etat * (uv + c * n)`, and the part along it is
    /// `-sqrt(|1 - |across|^2|) * n`.
    pub open spec fn spec_refraction(uv: Vec3, n: Vec3, etai_over_etat: Scalar) -> Vec3 {
        let one = Scalar { raw: ONE_RAW };
        let cos_theta = one.spec_min(Vec3::spec_dot(uv.spec_neg(), n));
        let across = uv.spec_add(n.spec_scale(cos_theta)).spec_scale(etai_over_etat);
        let along = one.spec_sub(across.spec_squared_length()).spec_abs().spec_sqrt().spec_neg();
        across.spec_add(n.spec_scale(along))
    }

    /// `p` itself where it lies on the side that `normal` points to, else its
    /// opposite.
    pub open spec fn spec_on_side_of(p: Vec3, normal: Vec3) -> Vec3 {
        if Vec3::spec_dot(p, normal)@ > 0 {
            p
        } else {
            p.spec_scale(Scalar { raw: (-ONE_RAW) as i64 })
        }
    }

    /// The vector with the three components given.
    pub fn new(e0: Scalar, e1: Scalar, e2: Scalar) -> (r: Vec3)
        ensures
            r == (Vec3 { x: e0, y: e1, z: e2 }),
    {
        Vec3 { x: e0, y: e1, z: e2 }
    }

    /// The first component.
    pub fn get_x(&self) -> (r: Scalar)
        ensures
            r == self.x,
    {
        self.x
    }

    /// The second component.
    pub fn get_y(&self) -> (r: Scalar)
        ensures
            r == self.y,
    {
        self.y
    }

    /// The third component.
    pub fn get_z(&self) -> (r: Scalar)
        ensures
            r == self.z,
    {
        self.z
    }

    /// Whether every component is within ten billionths of zero.
    pub fn near_zero(&self) -> (r: bool)
        ensures
            r == self.spec_near_zero(),
    {
        -NEAR_ZERO_RAW < self.x.raw && self.x.raw < NEAR_ZERO_RAW
            && -NEAR_ZERO_RAW < self.y.raw && self.y.raw < NEAR_ZERO_RAW
            && -NEAR_ZERO_RAW < self.z.raw && self.z.raw < NEAR_ZERO_RAW
    }

    /// The dot product.
    pub fn dot(v: &Vec3, u: &Vec3) -> (r: Scalar)
        ensures
            r == Vec3::spec_dot(*v, *u),
    {
        u.x * v.x + u.y * v.y + u.z * v.z
    }

    /// The squared length: the dot product of the vector with itself.
    pub fn squared_length(self) -> (r: Scalar)
        ensures
            r == self.spec_squared_length(),
    {
        Vec3::dot(&self, &self)
    }

    /// The Euclidean length.
    pub fn length(&self) -> (r: Scalar)
        ensures
            r == self.spec_length(),
    {
        let sum: u128 = square_raw(self.x.raw) + square_raw(self.y.raw) + square_raw(self.z.raw);
        let root: u64 = floor_sqrt_u128(sum);
        if root > i64::MAX as u64 {
            Scalar { raw: i64::MAX }
        } else {
            Scalar { raw: root as i64 }
        }
    }

    /// The vector scaled to length one. The zero vector has no direction and
    /// is returned as it is.
    pub fn unit_vector(v: &Vec3) -> (r: Vec3)
        ensures
            r == v.spec_unit(),
    {
        let sum: u128 = square_raw(v.x.raw) + square_raw(v.y.raw) + square_raw(v.z.raw);
        if sum == 0 {
            return *v;
        }
        let short = sum < SHORT_NORM_SQUARED;
        let scale: i64 = if short {
            ONE_RAW
        } else {
            1
        };
        let enlarged: u128 = if short {
            sum * 1_000_000_000_000_000_000
        } else {
            sum
        };
        let root: u64 = floor_sqrt_u128(enlarged);
        proof {
            assert(scale == v.unit_scale());
            assert(enlarged == v.raw_norm_squared() * (v.unit_scale() * v.unit_scale()))
                by (nonlinear_arith)
                requires
                    sum == v.raw_norm_squared(),
                    short ==> v.unit_scale() == 1_000_000_000 && enlarged == sum
                        * 1_000_000_000_000_000_000,
                    !short ==> v.unit_scale() == 1 && enlarged == sum,
            ;
            lemma_floor_sqrt_is(1, 1);
            lemma_floor_sqrt_monotonic(1, enlarged as int);
        }
        Vec3 {
            x: unit_part_of(v.x.raw, scale, sum, root),
            y: unit_part_of(v.y.raw, scale, sum, root),
            z: unit_part_of(v.z.raw, scale, sum, root),
        }
    }

    /// The mirror image of `v` at a surface with normal `n`.
    pub fn reflect(v: &Vec3, n: &Vec3) -> (r: Vec3)
        ensures
            r == Vec3::spec_reflect(*v, *n),
    {
        let twice = Scalar { raw: 2 * ONE_RAW } * Vec3::dot(v, n);
        *v - twice * *n
    }

    /// The direction of the unit vector `uv` after it crosses a surface with
    /// normal `n`.
    pub fn refraction(uv: Vec3, n: &Vec3, etai_over_etat: Scalar) -> (r: Vec3)
        ensures
            r == Vec3::spec_refraction(uv, *n, etai_over_etat),
    {
        let one = Scalar { raw: ONE_RAW };
        let minus_uv = core::ops::Neg::neg(uv);
        let cos_theta = one.min(Vec3::dot(&minus_uv, n));
        let across = etai_over_etat * (uv + cos_theta * *n);
        let along = core::ops::Neg::neg((one - across.squared_length()).abs().sqrt());
        across + along * *n
    }

    /// `p` turned to the side that `normal` points to.
    pub fn on_side_of(p: Vec3, normal: &Vec3) -> (r: Vec3)
        ensures
            r == Vec3::spec_on_side_of(p, *normal),
    {
        if Vec3::dot(&p, normal).raw > 0 {
            p
        } else {
            p * Scalar { raw: -ONE_RAW }
        }
    }

    /// A random vector with each component from minus one up to, but not
    /// including, one.
    pub fn random() -> (r: Vec3)
        ensures
            -ONE_RAW <= r.x@ < ONE_RAW,
            -ONE_RAW <= r.y@ < ONE_RAW,
            -ONE_RAW <= r.z@ < ONE_RAW,
    {
        let x = random_signed_unit();
        let y = random_signed_unit();
        let z = random_signed_unit();
        Vec3 { x, y, z }
    }

    /// A random direction: a random point of the unit sphere, scaled to
    /// length one.
    pub fn random_unit_vector() -> (r: Vec3)
        ensures
            exists|p: Vec3| in_unit_sphere(p) && r == p.spec_unit(),
    {
        let v: Vec3 = random_in_unit_sphere();
        Vec3::unit_vector(&v)
    }

    /// A random point of the unit sphere on the side that `normal` points to.
    pub fn random_in_hemisphere(normal: &Vec3) -> (r: Vec3)
        ensures
            exists|p: Vec3| in_unit_sphere(p) && r == Vec3::spec_on_side_of(p, *normal),
    {
        let p: Vec3 = random_in_unit_sphere();
        Vec3::on_side_of(p, normal)
    }
}

impl core::ops::Neg for Vec3 {
    type Output = Vec3;

    fn neg(self) -> (r: Vec3) {
        Vec3 {
            x: core::ops::Neg::neg(self.x),
            y: core::ops::Neg::neg(self.y),
            z: core::ops::Neg::neg(self.z),
        }
    }
}

impl vstd::std_specs::ops::NegSpecImpl for Vec3 {
    open spec fn obeys_neg_spec() -> bool {
        true
    }

    open spec fn neg_req(self) -> bool {
        true
    }

    open spec fn neg_spec(self) -> Vec3 {
        self.spec_neg()
    }
}

impl core::ops::Mul for Vec3 {
    type Output = Vec3;

    fn mul(self, rhs: Vec3) -> (r: Vec3) {
        Vec3 { x: self.x * rhs.x, y: self.y * rhs.y, z: self.z * rhs.z }
    }
}

impl vstd::std_specs::ops::MulSpecImpl for Vec3 {
    open spec fn obeys_mul_spec() -> bool {
        true
    }

    open spec fn mul_req(self, rhs: Vec3) -> bool {
        true
    }

    open spec fn mul_spec(self, rhs: Vec3) -> Vec3 {
        self.spec_mul(rhs)
    }
}

impl core::ops::Sub for Vec3 {
    type Output = Vec3;

    fn sub(self, v: Vec3) -> (r: Vec3) {
        Vec3 { x: self.x - v.x, y: self.y - v.y, z: self.z - v.z }
    }
}

impl vstd::std_specs::ops::SubSpecImpl for Vec3 {
    open spec fn obeys_sub_spec() -> bool {
        true
    }

    open spec fn sub_req(self, v: Vec3) -> bool {
        true
    }

    open spec fn sub_spec(self, v: Vec3) -> Vec3 {
        self.spec_sub(v)
    }
}

impl core::ops::Add for Vec3 {
    type Output = Vec3;

    fn add(self, v: Vec3) -> (r: Vec3) {
        Vec3 { x: self.x + v.x, y: self.y + v.y, z: self.z + v.z }
    }
}

impl vstd::std_specs::ops::AddSpecImpl for Vec3 {
    open spec fn obeys_add_spec() -> bool {
        true
    }

    open spec fn add_req(self, v: Vec3) -> bool {
        true
    }

    open spec fn add_spec(self, v: Vec3) -> Vec3 {
        self.spec_add(v)
    }
}

impl core::ops::Div<Scalar> for Vec3 {
    type Output = Vec3;

    fn div(self, t: Scalar) -> (r: Vec3) {
        Vec3 { x: self.x / t, y: self.y / t, z: self.z / t }
    }
}

impl vstd::std_specs::ops::DivSpecImpl<Scalar> for Vec3 {
    open spec fn obeys_div_spec() -> bool {
        true
    }

    open spec fn div_req(self, t: Scalar) -> bool {
        true
    }

    open spec fn div_spec(self, t: Scalar) -> Vec3 {
        self.spec_div(t)
    }
}

impl core::ops::Mul<Vec3> for Scalar {
    type Output = Vec3;

    fn mul(self, v: Vec3) -> (r: Vec3) {
        Vec3 { x: v.x * self, y: v.y * self, z: v.z * self }
    }
}

impl vstd::std_specs::ops::MulSpecImpl<Vec3> for Scalar {
    open spec fn obeys_mul_spec() -> bool {
        true
    }

    open spec fn mul_req(self, v: Vec3) -> bool {
        true
    }

    open spec fn mul_spec(self, v: Vec3) -> Vec3 {
        v.spec_scale(self)
    }
}

impl core::ops::Mul<Scalar> for Vec3 {
    type Output = Vec3;

    fn mul(self, t: Scalar) -> (r: Vec3) {
        Vec3 { x: self.x * t, y: self.y * t, z: self.z * t }
    }
}

impl vstd::std_specs::ops::MulSpecImpl<Scalar> for Vec3 {
    open spec fn obeys_mul_spec() -> bool {
        true
    }

    open spec fn mul_req(self, t: Scalar) -> bool {
        true
    }

    open spec fn mul_spec(self, t: Scalar) -> Vec3 {
        self.spec_scale(t)
    }
}

impl Default for Vec3 {
    fn default() -> (r: Vec3)
        ensures
            r == (Vec3 { x: Scalar { raw: 0 }, y: Scalar { raw: 0 }, z: Scalar { raw: 0 } }),
    {
        Vec3 { x: Scalar { raw: 0 }, y: Scalar { raw: 0 }, z: Scalar { raw: 0 } }
    }
}

} // verus!
