//! Real numbers in fixed point.
//!
//! A `Scalar` counts billionths: the number it stands for is `raw / 10^9`.
//! Every operation is total. A result too large for the type is replaced by the
//! nearest value the type has (it saturates), a quotient or product that is
//! not a whole number of billionths is rounded toward zero, and a division by
//! zero gives the largest value of the numerator's sign.

use vstd::prelude::*;
use crate::sqrt::{floor_sqrt, floor_sqrt_u128, lemma_floor_sqrt_monotonic, lemma_floor_sqrt_is};

verus! {

/// The raw value of the number one.
pub const ONE_RAW: i64 = 1_000_000_000;

/// The nearest raw value to `x` that fits the type.
pub open spec fn clamp_raw(x: int) -> int {
    if x < i64::MIN {
        i64::MIN as int
    } else if x > i64::MAX {
        i64::MAX as int
    } else {
        x
    }
}

/// The quotient of `a` by `b`, rounded toward zero; `b` is not zero.
pub open spec fn trunc_div(a: int, b: int) -> int {
    if b > 0 {
        if a >= 0 {
            a / b
        } else {
            -((-a) / b)
        }
    } else {
        if a >= 0 {
            -(a / (-b))
        } else {
            (-a) / (-b)
        }
    }
}

/// A real number, held as a whole number of billionths.
#[derive(Clone, Copy, Debug, PartialEq, Eq, Structural)]
pub struct Scalar {
    pub raw: i64,
}

impl View for Scalar {
    type V = int;

    /// The number of billionths.
    open spec fn view(&self) -> int {
        self.raw as int
    }
}

/// The scalar of `raw` billionths.
pub open spec fn sc(raw: i64) -> Scalar {
    Scalar { raw }
}

/// The scalar nearest to `x` billionths.
pub open spec fn scalar_of(x: int) -> Scalar {
    Scalar { raw: clamp_raw(x) as i64 }
}

impl Scalar {
    /// The scalar nearest to `x` billionths.
    pub fn from_wide(x: i128) -> (r: Scalar)
        ensures
            r == scalar_of(x as int),
    {
        if x > i64::MAX as i128 {
            Scalar { raw: i64::MAX }
        } else if x < i64::MIN as i128 {
            Scalar { raw: i64::MIN }
        } else {
            Scalar { raw: x as i64 }
        }
    }

    /// The sum, saturated.
    pub open spec fn spec_add(self, rhs: Scalar) -> Scalar {
        scalar_of(self@ + rhs@)
    }

    /// The difference, saturated.
    pub open spec fn spec_sub(self, rhs: Scalar) -> Scalar {
        scalar_of(self@ - rhs@)
    }

    /// The product, rounded toward zero and saturated.
    pub open spec fn spec_mul(self, rhs: Scalar) -> Scalar {
        scalar_of(trunc_div(self@ * rhs@, ONE_RAW as int))
    }

    /// The quotient, rounded toward zero and saturated. A division by zero
    /// gives the largest value of the numerator's sign, and zero for zero.
    pub open spec fn spec_div(self, rhs: Scalar) -> Scalar {
        if rhs@ == 0 {
            if self@ > 0 {
                Scalar { raw: i64::MAX }
            } else if self@ < 0 {
                Scalar { raw: i64::MIN }
            } else {
                Scalar { raw: 0 }
            }
        } else {
            scalar_of(trunc_div(self@ * ONE_RAW, rhs@))
        }
    }

    /// The negation, saturated: the least value has no exact negation.
    pub open spec fn spec_neg(self) -> Scalar {
        scalar_of(-self@)
    }

    /// The absolute value, saturated.
    pub open spec fn spec_abs(self) -> Scalar {
        if self@ < 0 {
            self.spec_neg()
        } else {
            self
        }
    }

    /// The square root rounded down to a billionth; zero for a negative
    /// number.
    pub open spec fn spec_sqrt(self) -> Scalar {
        Scalar { raw: floor_sqrt(self@ * ONE_RAW) as i64 }
    }

    /// The smaller of the two.
    pub open spec fn spec_min(self, rhs: Scalar) -> Scalar {
        if rhs@ < self@ {
            rhs
        } else {
            self
        }
    }

    /// The whole part, saturated to 32 bits.
    pub open spec fn spec_trunc(self) -> int {
        let q = trunc_div(self@, ONE_RAW as int);
        if q > i32::MAX {
            i32::MAX as int
        } else if q < i32::MIN {
            i32::MIN as int
        } else {
            q
        }
    }

    /// The scalar of `raw` billionths.
    pub fn from_raw(raw: i64) -> (r: Scalar)
        ensures
            r@ == raw,
    {
        Scalar { raw }
    }

    /// The whole number `n`.
    pub fn from_int(n: i32) -> (r: Scalar)
        ensures
            r@ == n * ONE_RAW,
    {
        assert(-0x4000_0000_0000_0000 <= n * ONE_RAW <= 0x4000_0000_0000_0000)
            by (nonlinear_arith)
            requires
                -0x8000_0000 <= n <= 0x7fff_ffff,
                ONE_RAW == 1_000_000_000,
        ;
        Scalar { raw: (n as i64) * ONE_RAW }
    }

    /// The fraction `num / den`, rounded toward zero and saturated; with a
    /// zero `den`, as a division by zero.
    pub fn from_ratio(num: i64, den: i64) -> (r: Scalar)
        ensures
            r == (Scalar { raw: num }).spec_div(Scalar { raw: den }),
    {
        Scalar { raw: num } / Scalar { raw: den }
    }

    /// Zero.
    pub fn zero() -> (r: Scalar)
        ensures
            r@ == 0,
    {
        Scalar { raw: 0 }
    }

    /// One.
    pub fn one() -> (r: Scalar)
        ensures
            r@ == ONE_RAW,
    {
        Scalar { raw: ONE_RAW }
    }

    /// The largest value, which stands in for infinity.
    pub fn max_value() -> (r: Scalar)
        ensures
            r@ == i64::MAX,
    {
        Scalar { raw: i64::MAX }
    }

    /// The least value.
    pub fn min_value() -> (r: Scalar)
        ensures
            r@ == i64::MIN,
    {
        Scalar { raw: i64::MIN }
    }

    /// The absolute value.
    pub fn abs(self) -> (r: Scalar)
        ensures
            r == self.spec_abs(),
    {
        if self.raw < 0 {
            Scalar::from_wide(-(self.raw as i128))
        } else {
            self
        }
    }

    /// The square root, rounded down to a billionth; zero for a negative
    /// number.
    pub fn sqrt(self) -> (r: Scalar)
        ensures
            r == self.spec_sqrt(),
    {
        if self.raw <= 0 {
            proof {
                if self.raw == 0 {
                    lemma_floor_sqrt_is(0, 0);
                }
            }
            Scalar { raw: 0 }
        } else {
            assert(0 <= self.raw * ONE_RAW <= 0x4000_0000_0000_0000_0000_0000)
                by (nonlinear_arith)
                requires
                    0 <= self.raw <= 0x7fff_ffff_ffff_ffff,
                    ONE_RAW == 1_000_000_000,
            ;
            let wide: u128 = (self.raw as u128) * (ONE_RAW as u128);
            let root: u64 = floor_sqrt_u128(wide);
            proof {
                // The root of a number below 2^93 is below 2^47.
                lemma_floor_sqrt_is(0x8000_0000_0000, 0x4000_0000_0000_0000_0000_0000);
                lemma_floor_sqrt_monotonic(wide as int, 0x4000_0000_0000_0000_0000_0000);
            }
            Scalar { raw: root as i64 }
        }
    }

    /// The smaller of the two.
    pub fn min(self, rhs: Scalar) -> (r: Scalar)
        ensures
            r == self.spec_min(rhs),
    {
        if rhs.raw < self.raw {
            rhs
        } else {
            self
        }
    }

    /// Whether `self` is less than `rhs`.
    pub fn lt(self, rhs: Scalar) -> (r: bool)
        ensures
            r == (self@ < rhs@),
    {
        self.raw < rhs.raw
    }

    /// The whole part: the number rounded toward zero, saturated to 32 bits.
    pub fn trunc(self) -> (r: i32)
        ensures
            r == self.spec_trunc(),
    {
        let q: i64 = self.raw / ONE_RAW;
        if q > i32::MAX as i64 {
            i32::MAX
        } else if q < i32::MIN as i64 {
            i32::MIN
        } else {
            q as i32
        }
    }
}

impl core::ops::Add for Scalar {
    type Output = Scalar;

    fn add(self, rhs: Scalar) -> (r: Scalar) {
        Scalar::from_wide(self.raw as i128 + rhs.raw as i128)
    }
}

impl vstd::std_specs::ops::AddSpecImpl for Scalar {
    open spec fn obeys_add_spec() -> bool {
        true
    }

    open spec fn add_req(self, rhs: Scalar) -> bool {
        true
    }

    open spec fn add_spec(self, rhs: Scalar) -> Scalar {
        self.spec_add(rhs)
    }
}

impl core::ops::Sub for Scalar {
    type Output = Scalar;

    fn sub(self, rhs: Scalar) -> (r: Scalar) {
        Scalar::from_wide(self.raw as i128 - rhs.raw as i128)
    }
}

impl vstd::std_specs::ops::SubSpecImpl for Scalar {
    open spec fn obeys_sub_spec() -> bool {
        true
    }

    open spec fn sub_req(self, rhs: Scalar) -> bool {
        true
    }

    open spec fn sub_spec(self, rhs: Scalar) -> Scalar {
        self.spec_sub(rhs)
    }
}

impl core::ops::Neg for Scalar {
    type Output = Scalar;

    fn neg(self) -> (r: Scalar) {
        Scalar::from_wide(-(self.raw as i128))
    }
}

impl vstd::std_specs::ops::NegSpecImpl for Scalar {
    open spec fn obeys_neg_spec() -> bool {
        true
    }

    open spec fn neg_req(self) -> bool {
        true
    }

    open spec fn neg_spec(self) -> Scalar {
        self.spec_neg()
    }
}

impl core::ops::Mul for Scalar {
    type Output = Scalar;

    fn mul(self, rhs: Scalar) -> (r: Scalar) {
        assert(-0x4000_0000_0000_0000_0000_0000_0000_0000 <= self.raw * rhs.raw
            <= 0x4000_0000_0000_0000_0000_0000_0000_0000) by (nonlinear_arith)
            requires
                -0x8000_0000_0000_0000 <= self.raw <= 0x7fff_ffff_ffff_ffff,
                -0x8000_0000_0000_0000 <= rhs.raw <= 0x7fff_ffff_ffff_ffff,
        ;
        let wide: i128 = (self.raw as i128) * (rhs.raw as i128);
        Scalar::from_wide(wide / (ONE_RAW as i128))
    }
}

impl vstd::std_specs::ops::MulSpecImpl for Scalar {
    open spec fn obeys_mul_spec() -> bool {
        true
    }

    open spec fn mul_req(self, rhs: Scalar) -> bool {
        true
    }

    open spec fn mul_spec(self, rhs: Scalar) -> Scalar {
        self.spec_mul(rhs)
    }
}

impl core::ops::Div for Scalar {
    type Output = Scalar;

    fn div(self, rhs: Scalar) -> (r: Scalar) {
        if rhs.raw == 0 {
            if self.raw > 0 {
                Scalar { raw: i64::MAX }
            } else if self.raw < 0 {
                Scalar { raw: i64::MIN }
            } else {
                Scalar { raw: 0 }
            }
        } else {
            assert(-0x4000_0000_0000_0000_0000_0000 <= self.raw * ONE_RAW
                <= 0x4000_0000_0000_0000_0000_0000) by (nonlinear_arith)
                requires
                    -0x8000_0000_0000_0000 <= self.raw <= 0x7fff_ffff_ffff_ffff,
                    ONE_RAW == 1_000_000_000,
            ;
            let num: i128 = (self.raw as i128) * (ONE_RAW as i128);
            let den: i128 = rhs.raw as i128;
            if den > 0 {
                Scalar::from_wide(num / den)
            } else {
                Scalar::from_wide((-num) / (-den))
            }
        }
    }
}

impl vstd::std_specs::ops::DivSpecImpl for Scalar {
    open spec fn obeys_div_spec() -> bool {
        true
    }

    open spec fn div_req(self, rhs: Scalar) -> bool {
        true
    }

    open spec fn div_spec(self, rhs: Scalar) -> Scalar {
        self.spec_div(rhs)
    }
}

impl Default for Scalar {
    fn default() -> (r: Scalar)
        ensures
            r@ == 0,
    {
        Scalar { raw: 0 }
    }
}

/// The distance of `x` from zero.
pub open spec fn abs(x: int) -> int {
    if x < 0 {
        -x
    } else {
        x
    }
}

/// A quotient rounded toward zero has the sign of the numerator, and its
/// distance from zero is the rounded-down quotient of the distances.
pub proof fn lemma_trunc_div_bounds(a: int, d: int)
    requires
        0 < d,
    ensures
        a >= 0 ==> trunc_div(a, d) >= 0,
        a <= 0 ==> trunc_div(a, d) <= 0,
        abs(trunc_div(a, d)) * d <= abs(a) < (abs(trunc_div(a, d)) + 1) * d,
{
    let m = abs(a);
    let q = m / d;
    vstd::arithmetic::div_mod::lemma_fundamental_div_mod(m, d);
    vstd::arithmetic::div_mod::lemma_mod_bound(m, d);
    vstd::arithmetic::div_mod::lemma_div_pos_is_pos(m, d);
    assert(abs(trunc_div(a, d)) == q);
    assert(q * d <= m < (q + 1) * d) by (nonlinear_arith)
        requires
            m == d * q + m % d,
            0 <= m % d < d,
    ;
}

/// A product is the exact product rounded toward zero, less than a
/// billionth from it, unless it is too large for a scalar.
pub proof fn lemma_mul_rounding(a: Scalar, b: Scalar)
    requires
        i64::MIN <= trunc_div(a@ * b@, ONE_RAW as int) <= i64::MAX,
    ensures
        abs(a.spec_mul(b)@) * ONE_RAW <= abs(a@ * b@) < (abs(a.spec_mul(b)@) + 1) * ONE_RAW,
        a@ * b@ >= 0 ==> a.spec_mul(b)@ >= 0,
        a@ * b@ <= 0 ==> a.spec_mul(b)@ <= 0,
{
    lemma_trunc_div_bounds(a@ * b@, ONE_RAW as int);
}

/// A quotient by a positive number is the exact quotient rounded toward
/// zero, less than a billionth from it, unless it is too large for a scalar.
pub proof fn lemma_div_rounding(a: Scalar, b: Scalar)
    requires
        0 < b@,
        i64::MIN <= trunc_div(a@ * ONE_RAW, b@) <= i64::MAX,
    ensures
        abs(a.spec_div(b)@) * b@ <= abs(a@) * ONE_RAW < (abs(a.spec_div(b)@) + 1) * b@,
        a@ >= 0 ==> a.spec_div(b)@ >= 0,
        a@ <= 0 ==> a.spec_div(b)@ <= 0,
{
    lemma_trunc_div_bounds(a@ * ONE_RAW, b@);
}

/// A square root is the exact root rounded down, less than a billionth
/// below it.
pub proof fn lemma_sqrt_rounding(x: Scalar)
    requires
        0 <= x@,
    ensures
        x.spec_sqrt()@ * x.spec_sqrt()@ <= x@ * ONE_RAW < (x.spec_sqrt()@ + 1) * (x.spec_sqrt()@
            + 1),
{
    lemma_sqrt_raw(x);
    crate::sqrt::lemma_floor_sqrt_properties(x@ * ONE_RAW);
}

/// Rounding toward zero keeps the order of the numerators.
pub proof fn lemma_trunc_div_monotonic(a: int, b: int, d: int)
    requires
        a <= b,
        0 < d,
    ensures
        trunc_div(a, d) <= trunc_div(b, d),
{
    if a >= 0 {
        vstd::arithmetic::div_mod::lemma_div_is_ordered(a, b, d);
    } else if b < 0 {
        vstd::arithmetic::div_mod::lemma_div_is_ordered(-b, -a, d);
    } else {
        vstd::arithmetic::div_mod::lemma_div_pos_is_pos(-a, d);
        vstd::arithmetic::div_mod::lemma_div_pos_is_pos(b, d);
    }
}

/// A square root is the rounded-down root of the raw value times `10^9`; it
/// is never negative and stays far below the largest scalar.
pub proof fn lemma_sqrt_raw(x: Scalar)
    ensures
        x.spec_sqrt()@ == floor_sqrt(x@ * ONE_RAW),
        0 <= x.spec_sqrt()@ <= 0x8000_0000_0000,
{
    let n = x@ * ONE_RAW;
    if n >= 0 {
        crate::sqrt::lemma_floor_sqrt_properties(n);
        lemma_floor_sqrt_is(0x8000_0000_0000, 0x4000_0000_0000_0000_0000_0000);
        lemma_floor_sqrt_monotonic(n, 0x4000_0000_0000_0000_0000_0000);
    }
}

/// With a positive divisor, the quotient keeps the order of the numerators.
pub proof fn lemma_div_monotonic(a: Scalar, b: Scalar, d: Scalar)
    requires
        a@ <= b@,
        0 < d@,
    ensures
        a.spec_div(d)@ <= b.spec_div(d)@,
{
    lemma_trunc_div_monotonic(a@ * ONE_RAW, b@ * ONE_RAW, d@);
}

} // verus!
