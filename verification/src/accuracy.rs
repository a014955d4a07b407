//! How far rounded results lie from exact ones.

use vstd::prelude::*;
use crate::hit_record::HitRecord;
use crate::hittable::Hittable;
use crate::material::{lambertian_direction, spec_scatter, Material, Sample};
use crate::ray::Ray;
use crate::scalar::{abs, lemma_trunc_div_bounds, trunc_div, Scalar, ONE_RAW};
use crate::sqrt::{floor_sqrt, is_floor_sqrt, lemma_floor_sqrt_is, lemma_floor_sqrt_monotonic, lemma_floor_sqrt_properties};
use crate::vec3::{has_opposite, near_unit, Vec3};

verus! {

/// A number whose square does not exceed `s` is no farther from zero than
/// the root of `s`.
proof fn lemma_abs_le_root(x: int, s: int)
    requires
        x * x <= s,
    ensures
        abs(x) <= floor_sqrt(s),
{
    assert(0 <= x * x) by (nonlinear_arith);
    lemma_floor_sqrt_properties(s);
    let l = floor_sqrt(s);
    if abs(x) > l {
        assert((l + 1) * (l + 1) <= x * x) by (nonlinear_arith)
            requires
                0 <= l,
                l + 1 <= abs(x),
                abs(x) == x || abs(x) == -x,
        ;
    }
}

/// The component `x` of a vector of length `l`, divided by that length:
/// in billionths, `x * 10^9 / l` rounded toward zero.
pub open spec fn unit_component(x: int, l: int) -> int {
    trunc_div(x * ONE_RAW, l)
}

/// A component of a unit vector is at most one, and falls short of the exact
/// quotient by less than a billionth.
proof fn lemma_unit_component(x: int, l: int)
    requires
        1 <= l,
        abs(x) <= l,
    ensures
        abs(unit_component(x, l)) <= ONE_RAW,
        x >= 0 ==> unit_component(x, l) >= 0,
        x <= 0 ==> unit_component(x, l) <= 0,
        abs(unit_component(x, l)) * l <= abs(x) * ONE_RAW < (abs(unit_component(x, l)) + 1) * l,
        (unit_component(x, l) * l) * (unit_component(x, l) * l) <= (x * ONE_RAW) * (x * ONE_RAW),
        (unit_component(x, l) * l) * (unit_component(x, l) * l) >= (x * ONE_RAW) * (x * ONE_RAW)
            - 2 * ONE_RAW * (l * l),
{
    let a = x * ONE_RAW;
    let q = unit_component(x, l);
    lemma_trunc_div_bounds(a, l);
    assert(abs(a) == abs(x) * ONE_RAW);
    let m = abs(q);
    let n = abs(x);
    assert((m + 1) * l == m * l + l) by (nonlinear_arith);
    assert(m <= ONE_RAW) by (nonlinear_arith)
        requires
            m * l <= n * ONE_RAW,
            n <= l,
            1 <= l,
            0 <= m,
            ONE_RAW == 1_000_000_000,
    ;
    assert((m * l) * (m * l) <= (n * ONE_RAW) * (n * ONE_RAW)) by (nonlinear_arith)
        requires
            0 <= m * l <= n * ONE_RAW,
    ;
    assert((m * l) * (m * l) >= (n * ONE_RAW) * (n * ONE_RAW) - 2 * ONE_RAW * (l * l))
        by (nonlinear_arith)
        requires
            0 <= m * l,
            n * ONE_RAW < m * l + l,
            0 <= n <= l,
            1 <= l,
            ONE_RAW == 1_000_000_000,
    ;
    assert((q * l) * (q * l) == (m * l) * (m * l)) by (nonlinear_arith)
        requires
            m == q || m == -q,
    ;
    assert((x * ONE_RAW) * (x * ONE_RAW) == (n * ONE_RAW) * (n * ONE_RAW)) by (nonlinear_arith)
        requires
            n == x || n == -x,
    ;
}

/// The square of a product is the product of the squares.
proof fn lemma_square_of_product(a: int, b: int)
    ensures
        (a * b) * (a * b) == (a * a) * (b * b),
{
    assert((a * b) * (a * b) == (a * a) * (b * b)) by (nonlinear_arith);
}

/// A sum of three products with a common factor.
proof fn lemma_common_factor(a: int, b: int, c: int, m: int)
    ensures
        (a + b + c) * m == a * m + b * m + c * m,
        m * (a + b + c) == a * m + b * m + c * m,
{
    assert((a + b + c) * m == a * m + b * m + c * m) by (nonlinear_arith);
    assert(m * (a + b + c) == a * m + b * m + c * m) by (nonlinear_arith);
}

/// The sum of the squares of `x`, `y` and `z`.
pub open spec fn norm_squared(x: int, y: int, z: int) -> int {
    x * x + y * y + z * z
}

/// The squared length of a normalised vector is close to one: it falls
/// short by at most six billionths, and exceeds one by no more than the
/// rounding of the length allows.
proof fn lemma_unit_norm(x: int, y: int, z: int, l: int)
    requires
        l == floor_sqrt(norm_squared(x, y, z)),
        1 <= l,
    ensures
        abs(x) <= l && abs(y) <= l && abs(z) <= l,
        norm_squared(unit_component(x, l), unit_component(y, l), unit_component(z, l)) >= ONE_RAW
            * ONE_RAW - 6 * ONE_RAW,
        norm_squared(unit_component(x, l), unit_component(y, l), unit_component(z, l)) * (l * l)
            < (ONE_RAW * (l + 1)) * (ONE_RAW * (l + 1)),
{
    let s = norm_squared(x, y, z);
    assert(0 <= x * x && 0 <= y * y && 0 <= z * z) by (nonlinear_arith);
    lemma_floor_sqrt_properties(s);
    lemma_abs_le_root(x, s);
    lemma_abs_le_root(y, s);
    lemma_abs_le_root(z, s);
    lemma_unit_component(x, l);
    lemma_unit_component(y, l);
    lemma_unit_component(z, l);
    let qx = unit_component(x, l);
    let qy = unit_component(y, l);
    let qz = unit_component(z, l);
    let u = norm_squared(qx, qy, qz);
    let one = ONE_RAW as int;
    lemma_square_of_product(qx, l);
    lemma_square_of_product(qy, l);
    lemma_square_of_product(qz, l);
    lemma_common_factor(qx * qx, qy * qy, qz * qz, l * l);
    assert((qx * l) * (qx * l) + (qy * l) * (qy * l) + (qz * l) * (qz * l) == u * (l * l));
    lemma_square_of_product(x, one);
    lemma_square_of_product(y, one);
    lemma_square_of_product(z, one);
    lemma_common_factor(x * x, y * y, z * z, one * one);
    assert((x * one) * (x * one) + (y * one) * (y * one) + (z * one) * (z * one) == (one * one)
        * s);
    assert((one * one) * s < (one * (l + 1)) * (one * (l + 1))) by (nonlinear_arith)
        requires
            s < (l + 1) * (l + 1),
            one == 1_000_000_000,
    ;
    assert(u >= one * one - 6 * one) by (nonlinear_arith)
        requires
            u * (l * l) >= (one * one) * s - 6 * one * (l * l),
            s >= l * l,
            1 <= l,
            one == 1_000_000_000,
    ;
}

/// What the components of a normalised vector are: with `k` the factor by
/// which the vector is enlarged and `l` the length of the enlarged vector,
/// which is one or more, each is the enlarged component over `l`.
proof fn lemma_unit_parts(v: Vec3)
    requires
        v.raw_norm_squared() > 0,
    ensures
        ONE_RAW <= v.scaled_length(),
        v.scaled_length() == floor_sqrt(
            norm_squared(v.x@ * v.unit_scale(), v.y@ * v.unit_scale(), v.z@ * v.unit_scale()),
        ),
        v.spec_unit().x@ == unit_component(v.x@ * v.unit_scale(), v.scaled_length()),
        v.spec_unit().y@ == unit_component(v.y@ * v.unit_scale(), v.scaled_length()),
        v.spec_unit().z@ == unit_component(v.z@ * v.unit_scale(), v.scaled_length()),
        abs(v.spec_unit().x@) <= ONE_RAW,
        abs(v.spec_unit().y@) <= ONE_RAW,
        abs(v.spec_unit().z@) <= ONE_RAW,
{
    let one = ONE_RAW as int;
    let k = v.unit_scale();
    let s = v.raw_norm_squared();
    let l = v.scaled_length();
    let scaled = s * (k * k);
    assert(0 <= v.x@ * v.x@ && 0 <= v.y@ * v.y@ && 0 <= v.z@ * v.z@) by (nonlinear_arith);
    lemma_square_of_product(v.x@, k);
    lemma_square_of_product(v.y@, k);
    lemma_square_of_product(v.z@, k);
    lemma_common_factor(v.x@ * v.x@, v.y@ * v.y@, v.z@ * v.z@, k * k);
    assert(norm_squared(v.x@ * k, v.y@ * k, v.z@ * k) == scaled);
    if k == 1 {
        assert(scaled == s) by (nonlinear_arith)
            requires
                scaled == s * (k * k),
                k == 1,
        ;
        lemma_floor_sqrt_is(0x1_0000_0000, 0x1_0000_0000_0000_0000);
        lemma_floor_sqrt_monotonic(0x1_0000_0000_0000_0000, scaled);
    } else {
        assert(scaled >= 1_000_000_000_000_000_000) by (nonlinear_arith)
            requires
                scaled == s * (k * k),
                k == 1_000_000_000,
                s >= 1,
        ;
        assert(is_floor_sqrt(1_000_000_000, 1_000_000_000_000_000_000)) by (nonlinear_arith);
        lemma_floor_sqrt_is(1_000_000_000, 1_000_000_000_000_000_000);
        lemma_floor_sqrt_monotonic(1_000_000_000_000_000_000, scaled);
    }
    assert(0 <= (v.x@ * k) * (v.x@ * k) && 0 <= (v.y@ * k) * (v.y@ * k) && 0 <= (v.z@ * k) * (v.z@
        * k)) by (nonlinear_arith);
    lemma_abs_le_root(v.x@ * k, scaled);
    lemma_abs_le_root(v.y@ * k, scaled);
    lemma_abs_le_root(v.z@ * k, scaled);
    lemma_unit_component(v.x@ * k, l);
    lemma_unit_component(v.y@ * k, l);
    lemma_unit_component(v.z@ * k, l);
}

/// A vector whose squared length is zero is the zero vector, and no squared
/// length is negative.
proof fn lemma_zero_vector(v: Vec3)
    ensures
        v.raw_norm_squared() >= 0,
        v.raw_norm_squared() == 0 ==> v.x@ == 0 && v.y@ == 0 && v.z@ == 0,
{
    assert(0 <= v.x@ * v.x@ && 0 <= v.y@ * v.y@ && 0 <= v.z@ * v.z@) by (nonlinear_arith);
    if v.raw_norm_squared() == 0 {
        assert(v.x@ == 0) by (nonlinear_arith)
            requires
                v.x@ * v.x@ == 0,
        ;
        assert(v.y@ == 0) by (nonlinear_arith)
            requires
                v.y@ * v.y@ == 0,
        ;
        assert(v.z@ == 0) by (nonlinear_arith)
            requires
                v.z@ * v.z@ == 0,
        ;
    }
}

/// No component of a normalised vector lies beyond minus one or one,
/// whatever the vector.
pub proof fn lemma_unit_vector_components(v: Vec3)
    ensures
        -ONE_RAW <= v.spec_unit().x@ <= ONE_RAW,
        -ONE_RAW <= v.spec_unit().y@ <= ONE_RAW,
        -ONE_RAW <= v.spec_unit().z@ <= ONE_RAW,
{
    lemma_zero_vector(v);
    if v.raw_norm_squared() > 0 {
        lemma_unit_parts(v);
    }
}

/// The opposite of a vector has the opposite direction: normalising it
/// gives the opposite of the normalised vector. No component of the vector
/// is the least scalar, which has no opposite.
pub proof fn lemma_unit_of_opposite(v: Vec3)
    requires
        has_opposite(v),
    ensures
        v.spec_neg().spec_unit() == v.spec_unit().spec_neg(),
{
    let w = v.spec_neg();
    assert((-v.x@) * (-v.x@) == v.x@ * v.x@) by (nonlinear_arith);
    assert((-v.y@) * (-v.y@) == v.y@ * v.y@) by (nonlinear_arith);
    assert((-v.z@) * (-v.z@) == v.z@ * v.z@) by (nonlinear_arith);
    assert(w.raw_norm_squared() == v.raw_norm_squared());
    lemma_zero_vector(v);
    if v.raw_norm_squared() > 0 {
        let k = v.unit_scale();
        let one = ONE_RAW as int;
        lemma_unit_parts(v);
        lemma_unit_parts(w);
        assert(((-v.x@) * k) * one == -((v.x@ * k) * one)) by (nonlinear_arith);
        assert(((-v.y@) * k) * one == -((v.y@ * k) * one)) by (nonlinear_arith);
        assert(((-v.z@) * k) * one == -((v.z@ * k) * one)) by (nonlinear_arith);
    }
}

/// The squared length of a normalised vector differs from one by at most
/// six billionths, whatever the vector but the zero vector.
pub proof fn lemma_unit_vector_near_unit(v: Vec3)
    requires
        v.raw_norm_squared() > 0,
    ensures
        ONE_RAW * ONE_RAW - 6 * ONE_RAW <= v.spec_unit().raw_norm_squared() <= ONE_RAW * ONE_RAW + 2
            * ONE_RAW,
        near_unit(v.spec_unit(), 6),
{
    let one = ONE_RAW as int;
    let k = v.unit_scale();
    let l = v.scaled_length();
    lemma_unit_parts(v);
    lemma_unit_norm(v.x@ * k, v.y@ * k, v.z@ * k, l);
    let u = v.spec_unit().raw_norm_squared();
    assert(u <= one * one + 2 * one) by (nonlinear_arith)
        requires
            u * (l * l) < (one * (l + 1)) * (one * (l + 1)),
            one <= l,
            one == 1_000_000_000,
    ;
    assert(one * one == 1_000_000_000_000_000_000 && 6 * one == 6_000_000_000);
}

/// Dividing a component of at most one by a length close to one changes it
/// by at most four billionths.
proof fn lemma_renormalised_component(q: int, again: int)
    requires
        abs(q) <= ONE_RAW,
        ONE_RAW * ONE_RAW - 4 * ONE_RAW <= again <= ONE_RAW * ONE_RAW + ONE_RAW,
    ensures
        abs(unit_component(q * ONE_RAW, again) - q) <= 4,
{
    let one = ONE_RAW as int;
    let w = unit_component(q * one, again);
    assert(one * one == 1_000_000_000_000_000_000);
    lemma_trunc_div_bounds((q * one) * one, again);
    assert(abs((q * one) * one) == abs(q) * (one * one)) by (nonlinear_arith)
        requires
            one == 1_000_000_000,
    ;
    let aw = abs(w);
    let aq = abs(q);
    assert(aw <= aq + 4) by (nonlinear_arith)
        requires
            aw * again <= aq * (one * one),
            one * one - 4 * one <= again,
            0 <= aq <= one,
            0 <= aw,
            one == 1_000_000_000,
    ;
    assert(aw >= aq - 1) by (nonlinear_arith)
        requires
            aq * (one * one) < (aw + 1) * again,
            0 < again <= one * one + one,
            0 <= aq <= one,
            0 <= aw,
            one == 1_000_000_000,
    ;
}

/// Normalising a vector that has been normalised changes no component by
/// more than four billionths, whatever the vector.
pub proof fn lemma_unit_vector_idempotent(v: Vec3)
    ensures
        abs(v.spec_unit().spec_unit().x@ - v.spec_unit().x@) <= 4,
        abs(v.spec_unit().spec_unit().y@ - v.spec_unit().y@) <= 4,
        abs(v.spec_unit().spec_unit().z@ - v.spec_unit().z@) <= 4,
{
    let one = ONE_RAW as int;
    lemma_zero_vector(v);
    if v.raw_norm_squared() == 0 {
        assert(v.spec_unit() == v);
    } else {
        let once = v.spec_unit();
        lemma_unit_parts(v);
        lemma_unit_vector_near_unit(v);
        let u = once.raw_norm_squared();
        assert(one * one == 1_000_000_000_000_000_000);
        assert(once.unit_scale() == one);
        let again = once.scaled_length();
        let scaled = u * (one * one);
        assert(999_999_994_000_000_000_000_000_000_000_000_000 <= scaled
            <= 1_000_000_002_000_000_000_000_000_000_000_000_000);
        lemma_floor_sqrt_is(
            999_999_996_000_000_000,
            999_999_992_000_000_016_000_000_000_000_000_000,
        );
        lemma_floor_sqrt_monotonic(999_999_992_000_000_016_000_000_000_000_000_000, scaled);
        lemma_floor_sqrt_is(
            1_000_000_001_000_000_000,
            1_000_000_002_000_000_001_000_000_000_000_000_000,
        );
        lemma_floor_sqrt_monotonic(scaled, 1_000_000_002_000_000_001_000_000_000_000_000_000);
        lemma_unit_parts(once);
        lemma_renormalised_component(once.x@, again);
        lemma_renormalised_component(once.y@, again);
        lemma_renormalised_component(once.z@, again);
    }
}

/// The square of a dot product does not exceed the product of the squared
/// lengths (the inequality of Cauchy and Schwarz, in three dimensions).
pub proof fn lemma_dot_squared(a1: int, a2: int, a3: int, b1: int, b2: int, b3: int)
    ensures
        (a1 * b1 + a2 * b2 + a3 * b3) * (a1 * b1 + a2 * b2 + a3 * b3) <= norm_squared(a1, a2, a3)
            * norm_squared(b1, b2, b3),
{
    let p11 = a1 * b1;
    let p12 = a1 * b2;
    let p13 = a1 * b3;
    let p21 = a2 * b1;
    let p22 = a2 * b2;
    let p23 = a2 * b3;
    let p31 = a3 * b1;
    let p32 = a3 * b2;
    let p33 = a3 * b3;
    // The product of the squared lengths is the sum of the nine squares.
    lemma_square_of_product(a1, b1);
    lemma_square_of_product(a1, b2);
    lemma_square_of_product(a1, b3);
    lemma_square_of_product(a2, b1);
    lemma_square_of_product(a2, b2);
    lemma_square_of_product(a2, b3);
    lemma_square_of_product(a3, b1);
    lemma_square_of_product(a3, b2);
    lemma_square_of_product(a3, b3);
    let na = norm_squared(a1, a2, a3);
    let nb = norm_squared(b1, b2, b3);
    lemma_common_factor(a1 * a1, a2 * a2, a3 * a3, nb);
    lemma_common_factor(b1 * b1, b2 * b2, b3 * b3, a1 * a1);
    lemma_common_factor(b1 * b1, b2 * b2, b3 * b3, a2 * a2);
    lemma_common_factor(b1 * b1, b2 * b2, b3 * b3, a3 * a3);
    assert(na * nb == p11 * p11 + p12 * p12 + p13 * p13 + p21 * p21 + p22 * p22 + p23 * p23 + p31
        * p31 + p32 * p32 + p33 * p33) by {
        assert((b1 * b1) * (a1 * a1) == (a1 * a1) * (b1 * b1)) by (nonlinear_arith);
        assert((b2 * b2) * (a1 * a1) == (a1 * a1) * (b2 * b2)) by (nonlinear_arith);
        assert((b3 * b3) * (a1 * a1) == (a1 * a1) * (b3 * b3)) by (nonlinear_arith);
        assert((b1 * b1) * (a2 * a2) == (a2 * a2) * (b1 * b1)) by (nonlinear_arith);
        assert((b2 * b2) * (a2 * a2) == (a2 * a2) * (b2 * b2)) by (nonlinear_arith);
        assert((b3 * b3) * (a2 * a2) == (a2 * a2) * (b3 * b3)) by (nonlinear_arith);
        assert((b1 * b1) * (a3 * a3) == (a3 * a3) * (b1 * b1)) by (nonlinear_arith);
        assert((b2 * b2) * (a3 * a3) == (a3 * a3) * (b2 * b2)) by (nonlinear_arith);
        assert((b3 * b3) * (a3 * a3) == (a3 * a3) * (b3 * b3)) by (nonlinear_arith);
    }
    // The products across the diagonal pair up.
    assert(p11 * p22 == p12 * p21) by (nonlinear_arith)
        requires
            p11 == a1 * b1,
            p22 == a2 * b2,
            p12 == a1 * b2,
            p21 == a2 * b1,
    ;
    assert(p11 * p33 == p13 * p31) by (nonlinear_arith)
        requires
            p11 == a1 * b1,
            p33 == a3 * b3,
            p13 == a1 * b3,
            p31 == a3 * b1,
    ;
    assert(p22 * p33 == p23 * p32) by (nonlinear_arith)
        requires
            p22 == a2 * b2,
            p33 == a3 * b3,
            p23 == a2 * b3,
            p32 == a3 * b2,
    ;
    let s = p11 + p22 + p33;
    assert(s * s == p11 * p11 + p22 * p22 + p33 * p33 + 2 * (p11 * p22) + 2 * (p11 * p33) + 2 * (
    p22 * p33)) by (nonlinear_arith)
        requires
            s == p11 + p22 + p33,
    ;
    assert(0 <= (p12 - p21) * (p12 - p21) == p12 * p12 - 2 * (p12 * p21) + p21 * p21)
        by (nonlinear_arith);
    assert(0 <= (p13 - p31) * (p13 - p31) == p13 * p13 - 2 * (p13 * p31) + p31 * p31)
        by (nonlinear_arith);
    assert(0 <= (p23 - p32) * (p23 - p32) == p23 * p23 - 2 * (p23 * p32) + p32 * p32)
        by (nonlinear_arith);
}

/// A component of a vector whose squared length is at most two lies between
/// minus two and two.
proof fn lemma_component_bound(x: int, s: int)
    requires
        x * x <= s,
        s <= 2 * (ONE_RAW * ONE_RAW),
    ensures
        -2 * ONE_RAW <= x <= 2 * ONE_RAW,
{
    let one = ONE_RAW as int;
    assert(-2 * one <= x <= 2 * one) by (nonlinear_arith)
        requires
            x * x <= 2 * (one * one),
            one == 1_000_000_000,
    ;
}

/// The dot product of two vectors with components between minus four and
/// four does not saturate, and falls short of the exact one by less than
/// three billionths.
proof fn lemma_dot_floor(d: Vec3, n: Vec3)
    requires
        -4 * ONE_RAW <= d.x@ <= 4 * ONE_RAW,
        -4 * ONE_RAW <= d.y@ <= 4 * ONE_RAW,
        -4 * ONE_RAW <= d.z@ <= 4 * ONE_RAW,
        -4 * ONE_RAW <= n.x@ <= 4 * ONE_RAW,
        -4 * ONE_RAW <= n.y@ <= 4 * ONE_RAW,
        -4 * ONE_RAW <= n.z@ <= 4 * ONE_RAW,
    ensures
        Vec3::spec_dot(d, n)@ * ONE_RAW > n.x@ * d.x@ + n.y@ * d.y@ + n.z@ * d.z@ - 3 * ONE_RAW,
        Vec3::spec_dot(d, n)@ * ONE_RAW < n.x@ * d.x@ + n.y@ * d.y@ + n.z@ * d.z@ + 3 * ONE_RAW,
{
    let one = ONE_RAW as int;
    lemma_product_floor(n.x@, d.x@);
    lemma_product_floor(n.y@, d.y@);
    lemma_product_floor(n.z@, d.z@);
}

/// The rounded product of two numbers between minus four and four differs
/// from the exact one by less than a billionth and lies between minus
/// sixteen and sixteen.
proof fn lemma_product_floor(a: int, b: int)
    requires
        -4 * ONE_RAW <= a <= 4 * ONE_RAW,
        -4 * ONE_RAW <= b <= 4 * ONE_RAW,
    ensures
        a * b - ONE_RAW < trunc_div(a * b, ONE_RAW as int) * ONE_RAW < a * b + ONE_RAW,
        -16 * ONE_RAW <= trunc_div(a * b, ONE_RAW as int) <= 16 * ONE_RAW,
{
    let one = ONE_RAW as int;
    let p = a * b;
    lemma_trunc_div_bounds(p, one);
    assert(-16 * (one * one) <= p <= 16 * (one * one)) by (nonlinear_arith)
        requires
            p == a * b,
            -4 * one <= a <= 4 * one,
            -4 * one <= b <= 4 * one,
            one == 1_000_000_000,
    ;
}

/// The squared length `n` and the dot product `s` of a vector of squared
/// length `n` with one of squared length `u` add up to little below zero
/// where both squared lengths are close to one.
proof fn lemma_leaves_surface(n: int, u: int, s: int, tol: int)
    requires
        s * s <= n * u,
        0 <= tol < ONE_RAW,
        abs(n - ONE_RAW * ONE_RAW) <= tol * ONE_RAW,
        abs(u - ONE_RAW * ONE_RAW) <= tol * ONE_RAW,
    ensures
        n + s >= -tol * ONE_RAW,
{
    let one = ONE_RAW as int;
    let p = n + tol * one;
    if s < -p {
        assert(0 < n && 0 < p) by (nonlinear_arith)
            requires
                n >= one * one - tol * one,
                0 <= tol < one,
                p == n + tol * one,
                one == 1_000_000_000,
        ;
        assert(s * s > p * p) by (nonlinear_arith)
            requires
                s < -p,
                0 < p,
        ;
        assert(p * p >= n * (n + 2 * (tol * one))) by (nonlinear_arith)
            requires
                p == n + tol * one,
        ;
        assert(u > n + 2 * (tol * one)) by (nonlinear_arith)
            requires
                n * u > n * (n + 2 * (tol * one)),
                0 < n,
        ;
    }
}

/// A matt surface sends no ray into itself: where the surface normal and
/// the random direction both have a squared length within `tol` billionths
/// of one, the dot product of the scattered direction and the normal is not
/// below minus `tol + 3` billionths.
pub proof fn lemma_lambertian_direction(normal: Vec3, unit: Vec3, tol: int)
    requires
        0 <= tol < ONE_RAW,
        near_unit(normal, tol),
        near_unit(unit, tol),
    ensures
        Vec3::spec_dot(lambertian_direction(normal, unit), normal)@ >= -(tol + 3),
{
    let one = ONE_RAW as int;
    let n = normal.raw_norm_squared();
    let u = unit.raw_norm_squared();
    assert(tol * one <= one * one) by (nonlinear_arith)
        requires
            0 <= tol < one,
            one == 1_000_000_000,
    ;
    assert(0 <= normal.x@ * normal.x@ && 0 <= normal.y@ * normal.y@ && 0 <= normal.z@ * normal.z@)
        by (nonlinear_arith);
    assert(0 <= unit.x@ * unit.x@ && 0 <= unit.y@ * unit.y@ && 0 <= unit.z@ * unit.z@)
        by (nonlinear_arith);
    lemma_component_bound(normal.x@, n);
    lemma_component_bound(normal.y@, n);
    lemma_component_bound(normal.z@, n);
    lemma_component_bound(unit.x@, u);
    lemma_component_bound(unit.y@, u);
    lemma_component_bound(unit.z@, u);
    let sum = normal.spec_add(unit);
    assert(sum.x@ == normal.x@ + unit.x@);
    assert(sum.y@ == normal.y@ + unit.y@);
    assert(sum.z@ == normal.z@ + unit.z@);
    let d = lambertian_direction(normal, unit);
    lemma_dot_floor(d, normal);
    let exact = normal.x@ * d.x@ + normal.y@ * d.y@ + normal.z@ * d.z@;
    if sum.spec_near_zero() {
        assert(exact == n);
    } else {
        let s = normal.x@ * unit.x@ + normal.y@ * unit.y@ + normal.z@ * unit.z@;
        assert(normal.x@ * (normal.x@ + unit.x@) == normal.x@ * normal.x@ + normal.x@ * unit.x@)
            by (nonlinear_arith);
        assert(normal.y@ * (normal.y@ + unit.y@) == normal.y@ * normal.y@ + normal.y@ * unit.y@)
            by (nonlinear_arith);
        assert(normal.z@ * (normal.z@ + unit.z@) == normal.z@ * normal.z@ + normal.z@ * unit.z@)
            by (nonlinear_arith);
        assert(exact == n + s);
        lemma_dot_squared(normal.x@, normal.y@, normal.z@, unit.x@, unit.y@, unit.z@);
        lemma_leaves_surface(n, u, s, tol);
    }
    assert(exact >= -tol * one);
    let dot = Vec3::spec_dot(d, normal)@;
    assert(dot >= -(tol + 3)) by (nonlinear_arith)
        requires
            dot * one > exact - 3 * one,
            exact >= -tol * one,
            one == 1_000_000_000,
    ;
}

/// A matt surface scatters every ray, from the point where the ray met it,
/// and sends none into itself: where the squared length of the surface
/// normal is within `tol` billionths of one, the dot product of the new
/// direction and the normal is not below minus `tol + 3` billionths,
/// whatever the sample.
pub proof fn lemma_lambertian_leaves_surface(
    albedo: Vec3,
    r_in: Ray,
    rec: HitRecord,
    sample: Sample,
    tol: int,
)
    requires
        6 <= tol < ONE_RAW,
        near_unit(rec.normal, tol),
    ensures
        spec_scatter(Material::Lambertian { albedo }, r_in, rec, sample) matches Some(out)
            && out.0 == albedo && out.1.origin == rec.p && Vec3::spec_dot(
            out.1.direction,
            rec.normal,
        )@ >= -(tol + 3),
{
    let one = ONE_RAW as int;
    let normal = rec.normal;
    let unit = sample.in_sphere.spec_unit();
    lemma_zero_vector(sample.in_sphere);
    if sample.in_sphere.raw_norm_squared() > 0 {
        lemma_unit_vector_near_unit(sample.in_sphere);
        assert(6 * one <= tol * one) by (nonlinear_arith)
            requires
                6 <= tol,
                one == 1_000_000_000,
        ;
        lemma_lambertian_direction(normal, unit, tol);
    } else {
        let n = normal.raw_norm_squared();
        assert(unit == sample.in_sphere);
        assert(normal.spec_add(unit) == normal);
        assert(lambertian_direction(normal, unit) == normal);
        assert(tol * one <= one * one) by (nonlinear_arith)
            requires
                0 <= tol < one,
                one == 1_000_000_000,
        ;
        assert(0 <= normal.x@ * normal.x@ && 0 <= normal.y@ * normal.y@ && 0 <= normal.z@
            * normal.z@) by (nonlinear_arith);
        lemma_component_bound(normal.x@, n);
        lemma_component_bound(normal.y@, n);
        lemma_component_bound(normal.z@, n);
        lemma_dot_floor(normal, normal);
        let dot = Vec3::spec_dot(normal, normal)@;
        assert(dot >= -(tol + 3)) by (nonlinear_arith)
            requires
                dot * one > n - 3 * one,
                0 <= n,
                0 <= tol,
                one == 1_000_000_000,
        ;
    }
}

/// A matt surface sends no ray into itself, whatever it is that the ray
/// has met and whatever the sample: the dot product of the new direction
/// and the normal of the intersection is not below minus nine billionths.
pub proof fn lemma_matt_surface_scatters_outward<W: Hittable>(
    world: &W,
    r: Ray,
    t_min: Scalar,
    t_max: Scalar,
    albedo: Vec3,
    sample: Sample,
)
    ensures
        world.spec_hit(r, t_min, t_max) matches Some(h) ==> (spec_scatter(
            Material::Lambertian { albedo },
            r,
            h,
            sample,
        ) matches Some(out) && out.0 == albedo && out.1.origin == h.p && Vec3::spec_dot(
            out.1.direction,
            h.normal,
        )@ >= -9),
{
    if let Some(h) = world.spec_hit(r, t_min, t_max) {
        world.lemma_hit_unit_normal(r, t_min, t_max);
        let n = h.normal;
        lemma_zero_vector(n);
        if n.raw_norm_squared() == 0 {
            let d = lambertian_direction(n, sample.in_sphere.spec_unit());
            assert(0 * d.x@ == 0 && 0 * d.y@ == 0 && 0 * d.z@ == 0) by (nonlinear_arith);
        } else {
            lemma_lambertian_leaves_surface(albedo, r, h, sample, 6);
        }
    }
}

} // verus!
