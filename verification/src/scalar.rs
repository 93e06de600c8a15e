//! Saturating decimal fixed-point numbers and their integer-level model.
//!
//! A [`Scalar`] stores a signed count of billionths. Its view is that count as
//! a mathematical integer, and every operation is specified by one of the
//! `fx_*` functions below, which work on such integers. Results that would
//! leave the representable range stick to its nearest end, and a division by
//! zero yields the end of the range on the side of the dividend's sign, so no
//! operation can fail.

use vstd::arithmetic::div_mod::{
    lemma_div_by_multiple, lemma_div_is_ordered, lemma_div_multiples_vanish_quotient,
    lemma_div_pos_is_pos,
};
use vstd::prelude::*;

verus! {

/// Number of raw units in the value one.
pub const SCALE: i64 = 1_000_000_000;

/// Largest raw magnitude a scalar can hold; results beyond it saturate here.
pub const RAW_MAX: i64 = 9_223_372_036_854_775_807;

/// Raw value of the threshold under which a component counts as vanishing.
pub const RAW_EPSILON: i64 = 100;

/// The raw values a scalar may hold: a range symmetric around zero.
pub open spec fn in_range(x: int) -> bool {
    -RAW_MAX <= x <= RAW_MAX
}

/// Clamps an integer into the representable range.
pub open spec fn sat(x: int) -> int {
    if x > RAW_MAX {
        RAW_MAX as int
    } else if x < -RAW_MAX {
        -(RAW_MAX as int)
    } else {
        x
    }
}

/// Absolute value of an integer.
pub open spec fn magnitude(x: int) -> int {
    if x < 0 {
        -x
    } else {
        x
    }
}

/// Quotient rounded toward zero, for a non-zero divisor.
pub open spec fn tquot(n: int, d: int) -> int {
    if (n < 0) == (d < 0) {
        magnitude(n) / magnitude(d)
    } else {
        -(magnitude(n) / magnitude(d))
    }
}

/// Saturating sum.
pub open spec fn fx_add(a: int, b: int) -> int {
    sat(a + b)
}

/// Saturating difference.
pub open spec fn fx_sub(a: int, b: int) -> int {
    sat(a - b)
}

/// Negation; exact on every value in range.
pub open spec fn fx_neg(a: int) -> int {
    sat(-a)
}

/// Absolute value; exact on every value in range.
pub open spec fn fx_abs(a: int) -> int {
    sat(magnitude(a))
}

/// Product of two fixed-point values: the exact product, rescaled with
/// rounding toward zero, then saturated.
pub open spec fn fx_mul(a: int, b: int) -> int {
    sat(tquot(a * b, SCALE as int))
}

/// Quotient of two fixed-point values, rounded toward zero and saturated.
/// Dividing by zero gives the end of the range that the dividend's sign
/// points to, and zero for a zero dividend.
pub open spec fn fx_div(a: int, b: int) -> int {
    if b == 0 {
        if a > 0 {
            RAW_MAX as int
        } else if a < 0 {
            -(RAW_MAX as int)
        } else {
            0
        }
    } else {
        sat(tquot(a * SCALE, b))
    }
}

/// `r` is the integer square root of `n`: the largest integer whose square
/// does not exceed `n`.
pub open spec fn is_isqrt(n: int, r: int) -> bool {
    0 <= r && r * r <= n < (r + 1) * (r + 1)
}

/// The integer square root of a non-negative integer.
pub open spec fn isqrt(n: int) -> int {
    choose|r: int| is_isqrt(n, r)
}

/// Square root of a fixed-point value, rounded down; zero for anything that
/// is not positive.
pub open spec fn fx_sqrt(a: int) -> int {
    if a <= 0 {
        0
    } else {
        isqrt(a * SCALE)
    }
}

/// Squares grow with their non-negative base.
pub proof fn lemma_square_monotone(a: int, b: int)
    requires
        0 <= a <= b,
    ensures
        a * a <= b * b,
{
    assert(a * a <= b * b) by (nonlinear_arith)
        requires
            0 <= a <= b,
    ;
}

/// An integer has at most one integer square root.
pub proof fn lemma_isqrt_unique(n: int, r1: int, r2: int)
    requires
        is_isqrt(n, r1),
        is_isqrt(n, r2),
    ensures
        r1 == r2,
{
    if r1 < r2 {
        lemma_square_monotone(r1 + 1, r2);
    } else if r2 < r1 {
        lemma_square_monotone(r2 + 1, r1);
    }
}

/// Whatever satisfies the defining bounds is the integer square root.
pub proof fn lemma_isqrt_is(n: int, r: int)
    requires
        is_isqrt(n, r),
    ensures
        isqrt(n) == r,
{
    lemma_isqrt_unique(n, r, isqrt(n));
}

/// Every non-negative integer has an integer square root.
pub proof fn lemma_isqrt_exists(n: int)
    requires
        0 <= n,
    ensures
        is_isqrt(n, isqrt(n)),
    decreases n,
{
    if n == 0 {
        assert(is_isqrt(0, 0));
    } else {
        lemma_isqrt_exists(n - 1);
        let r = isqrt(n - 1);
        if (r + 1) * (r + 1) <= n {
            assert((r + 2) * (r + 2) > n) by (nonlinear_arith)
                requires
                    n - 1 < (r + 1) * (r + 1),
                    0 <= r,
            ;
            assert(is_isqrt(n, r + 1));
        } else {
            assert(is_isqrt(n, r));
        }
    }
}

/// The fixed-point square root is never negative.
pub proof fn lemma_sqrt_nonnegative(a: int)
    ensures
        0 <= fx_sqrt(a),
{
    if a > 0 {
        assert(0 <= a * SCALE) by (nonlinear_arith)
            requires
                a > 0,
                SCALE > 0,
        ;
        lemma_isqrt_exists(a * SCALE);
    }
}

/// The truncating quotient grows with its dividend, for a positive divisor.
pub proof fn lemma_tquot_monotone(n1: int, n2: int, d: int)
    requires
        n1 <= n2,
        0 < d,
    ensures
        tquot(n1, d) <= tquot(n2, d),
{
    if n1 >= 0 {
        lemma_div_is_ordered(n1, n2, d);
    } else if n2 < 0 {
        lemma_div_is_ordered(-n2, -n1, d);
    } else {
        lemma_div_pos_is_pos(-n1, d);
        lemma_div_pos_is_pos(n2, d);
    }
}

/// The fixed-point quotient grows with its dividend, for a divisor that is
/// not negative.
pub proof fn lemma_div_monotone(a1: int, a2: int, b: int)
    requires
        a1 <= a2,
        0 <= b,
    ensures
        fx_div(a1, b) <= fx_div(a2, b),
{
    if b > 0 {
        assert(a1 * SCALE <= a2 * SCALE) by (nonlinear_arith)
            requires
                a1 <= a2,
                SCALE > 0,
        ;
        lemma_tquot_monotone(a1 * SCALE, a2 * SCALE, b);
    }
}

/// The fixed-point product of a value with itself is never negative.
pub proof fn lemma_square_nonnegative(a: int)
    ensures
        0 <= fx_mul(a, a),
{
    assert(0 <= a * a) by (nonlinear_arith);
    lemma_div_pos_is_pos(a * a, SCALE as int);
}

/// The fixed-point product does not depend on the order of its factors.
pub proof fn lemma_mul_commutes(a: int, b: int)
    ensures
        fx_mul(a, b) == fx_mul(b, a),
{
    assert(a * b == b * a) by (nonlinear_arith);
}

/// Negating one factor negates the fixed-point product.
pub proof fn lemma_mul_neg(a: int, b: int)
    ensures
        fx_mul(-a, b) == -fx_mul(a, b),
{
    assert((-a) * b == -(a * b)) by (nonlinear_arith);
}

/// Multiplying by a whole number is exact up to saturation.
pub proof fn lemma_mul_whole(a: int, k: int)
    ensures
        fx_mul(a, k * SCALE) == sat(a * k),
        fx_mul(k * SCALE, a) == sat(a * k),
{
    assert(a * (k * SCALE) == (a * k) * SCALE && (k * SCALE) * a == (a * k) * SCALE)
        by (nonlinear_arith);
    lemma_product_sign(a * k, SCALE as int);
    lemma_div_by_multiple(magnitude(a * k), SCALE as int);
}

/// Dividing by a non-zero whole number divides the raw value, rounding
/// toward zero.
pub proof fn lemma_div_whole(a: int, k: int)
    requires
        k != 0,
    ensures
        fx_div(a, k * SCALE) == sat(tquot(a, k)),
{
    lemma_product_sign(a, SCALE as int);
    lemma_product_sign(k, SCALE as int);
    assert(magnitude(k) * SCALE == SCALE * magnitude(k) && magnitude(a) * SCALE == SCALE
        * magnitude(a)) by (nonlinear_arith);
    lemma_div_multiples_vanish_quotient(SCALE as int, magnitude(a), magnitude(k));
}

/// Sign and magnitude of a product, from those of its factors.
pub proof fn lemma_product_sign(a: int, b: int)
    ensures
        magnitude(a * b) == magnitude(a) * magnitude(b),
        (a * b < 0) == ((a < 0) != (b < 0) && a != 0 && b != 0),
{
    assert(magnitude(a * b) == magnitude(a) * magnitude(b) && ((a * b < 0) == ((a < 0) != (b < 0)
        && a != 0 && b != 0))) by (nonlinear_arith)
        requires
            magnitude(a) == (if a < 0 {
                -a
            } else {
                a
            }),
            magnitude(b) == (if b < 0 {
                -b
            } else {
                b
            }),
            magnitude(a * b) == (if a * b < 0 {
                -(a * b)
            } else {
                a * b
            }),
    ;
}

/// A product of two bounded non-negative factors is bounded by the product
/// of the bounds.
pub proof fn lemma_product_bound(a: int, b: int, m: int, n: int)
    requires
        0 <= a <= m,
        0 <= b <= n,
    ensures
        0 <= a * b <= m * n,
{
    assert(0 <= a * b <= m * n) by (nonlinear_arith)
        requires
            0 <= a <= m,
            0 <= b <= n,
    ;
}

/// A signed decimal fixed-point number with nine fractional digits.
#[derive(Clone, Copy, Debug, PartialEq, Eq, Structural)]
pub struct Scalar {
    raw: i64,
}

impl View for Scalar {
    type V = int;

    /// The stored count of billionths.
    closed spec fn view(&self) -> int {
        self.raw as int
    }
}

/// Magnitude of a raw value, widened so that it always fits.
fn magnitude_of(x: i64) -> (m: u128)
    ensures
        m == magnitude(x as int),
        m <= 0x8000_0000_0000_0000,
{
    if x >= 0 {
        x as u128
    } else {
        let wide: i128 = -(x as i128);
        wide as u128
    }
}

/// Integer square root by bisection, for arguments below 2^94.
fn isqrt_u128(n: u128) -> (r: u128)
    requires
        n < 0x4000_0000_0000_0000_0000_0000,
    ensures
        is_isqrt(n as int, r as int),
        r < 0x8000_0000_0000,
{
    let mut lo: u128 = 0;
    let mut hi: u128 = 0x8000_0000_0000;
    assert(0x8000_0000_0000 * 0x8000_0000_0000 == 0x4000_0000_0000_0000_0000_0000int);
    while hi - lo > 1
        invariant
            lo < hi <= 0x8000_0000_0000,
            lo * lo <= n < hi * hi,
        decreases hi - lo,
    {
        let mid: u128 = lo + (hi - lo) / 2;
        proof {
            lemma_product_bound(mid as int, mid as int, 0x8000_0000_0000, 0x8000_0000_0000);
        }
        if mid * mid <= n {
            lo = mid;
        } else {
            hi = mid;
        }
    }
    lo
}

impl Scalar {
    /// Every scalar lies in the symmetric representable range.
    #[verifier::type_invariant]
    pub open spec fn wf(self) -> bool {
        in_range(self@)
    }

    /// The scalar whose view is `v`, for `v` in range.
    pub closed spec fn of(v: int) -> Scalar {
        Scalar { raw: v as i64 }
    }

    /// `of` and the view are inverse to each other on the representable range.
    pub proof fn lemma_of_view(v: int)
        requires
            in_range(v),
        ensures
            Scalar::of(v)@ == v,
    {
    }

    /// A scalar is determined by its view.
    pub proof fn lemma_view_of(s: Scalar)
        ensures
            Scalar::of(s@) == s,
    {
    }

    /// Scalars with equal views are equal.
    pub proof fn lemma_view_injective(a: Scalar, b: Scalar)
        requires
            a@ == b@,
        ensures
            a == b,
    {
    }

    /// Scalar with the given sign and magnitude, saturated.
    fn signed(negative: bool, mag: u128) -> (s: Scalar)
        ensures
            s@ == sat(
                if negative {
                    -(mag as int)
                } else {
                    mag as int
                },
            ),
    {
        let capped: i64 = if mag > RAW_MAX as u128 {
            RAW_MAX
        } else {
            mag as i64
        };
        if negative {
            Scalar { raw: -capped }
        } else {
            Scalar { raw: capped }
        }
    }

    /// The scalar holding `raw` billionths; the one raw value outside the
    /// symmetric range is clamped into it.
    pub fn from_raw(raw: i64) -> (s: Scalar)
        ensures
            s@ == sat(raw as int),
            s == Scalar::of(sat(raw as int)),
    {
        if raw == i64::MIN {
            Scalar { raw: -RAW_MAX }
        } else {
            Scalar { raw }
        }
    }

    /// The stored count of billionths.
    pub fn raw(&self) -> (r: i64)
        ensures
            r == self@,
            in_range(r as int),
    {
        proof {
            use_type_invariant(self);
        }
        self.raw
    }

    /// The whole number `n`, saturated.
    pub fn from_int(n: i64) -> (s: Scalar)
        ensures
            s@ == sat(n * SCALE),
    {
        let mag: u128 = magnitude_of(n);
        proof {
            lemma_product_bound(mag as int, SCALE as int, 0x8000_0000_0000_0000, SCALE as int);
            assert(magnitude(n as int) * SCALE == magnitude(n * SCALE) && ((n * SCALE < 0) == (n
                < 0))) by (nonlinear_arith)
                requires
                    SCALE == 1_000_000_000,
                    magnitude(n as int) == (if n < 0 {
                        -n
                    } else {
                        n as int
                    }),
                    magnitude(n * SCALE) == (if n * SCALE < 0 {
                        -(n * SCALE)
                    } else {
                        n * SCALE
                    }),
            ;
        }
        Scalar::signed(n < 0, mag * (SCALE as u128))
    }

    /// The fraction `num / den`, rounded toward zero and saturated; with a
    /// zero denominator, the end of the range on the numerator's side.
    pub fn from_ratio(num: i64, den: i64) -> (s: Scalar)
        ensures
            s@ == fx_div(num as int, den as int),
    {
        if den == 0 {
            if num > 0 {
                Scalar { raw: RAW_MAX }
            } else if num < 0 {
                Scalar { raw: -RAW_MAX }
            } else {
                Scalar { raw: 0 }
            }
        } else {
            let mn: u128 = magnitude_of(num);
            let md: u128 = magnitude_of(den);
            proof {
                lemma_product_bound(mn as int, SCALE as int, 0x8000_0000_0000_0000, SCALE as int);
                lemma_product_sign(num as int, SCALE as int);
            }
            let q: u128 = (mn * (SCALE as u128)) / md;
            Scalar::signed((num < 0) != (den < 0), q)
        }
    }

    /// The value zero.
    pub fn zero() -> (s: Scalar)
        ensures
            s@ == 0,
    {
        Scalar { raw: 0 }
    }

    /// The value one.
    pub fn one() -> (s: Scalar)
        ensures
            s@ == SCALE,
    {
        Scalar { raw: SCALE }
    }

    /// The largest scalar; it serves as an unbounded upper limit.
    pub fn max_value() -> (s: Scalar)
        ensures
            s@ == RAW_MAX,
    {
        Scalar { raw: RAW_MAX }
    }

    /// The threshold under which a component counts as vanishing.
    pub fn epsilon() -> (s: Scalar)
        ensures
            s@ == RAW_EPSILON,
    {
        Scalar { raw: RAW_EPSILON }
    }

    /// The whole part of the value, rounded toward zero.
    pub fn to_int(self) -> (n: i64)
        ensures
            n == tquot(self@, SCALE as int),
    {
        proof {
            use_type_invariant(&self);
        }
        if self.raw >= 0 {
            let whole: u64 = (self.raw as u64) / (SCALE as u64);
            whole as i64
        } else {
            let whole: u64 = ((-self.raw) as u64) / (SCALE as u64);
            -(whole as i64)
        }
    }

    /// Absolute value.
    pub fn abs(self) -> (r: Scalar)
        ensures
            r@ == fx_abs(self@),
            r@ == magnitude(self@),
    {
        proof {
            use_type_invariant(&self);
        }
        if self.raw < 0 {
            Scalar { raw: -self.raw }
        } else {
            self
        }
    }

    /// Square root, rounded down; zero for anything that is not positive.
    pub fn sqrt(self) -> (r: Scalar)
        ensures
            r@ == fx_sqrt(self@),
            0 <= r@,
    {
        proof {
            use_type_invariant(&self);
        }
        if self.raw <= 0 {
            Scalar { raw: 0 }
        } else {
            let wide: u128 = self.raw as u128;
            proof {
                lemma_product_bound(wide as int, SCALE as int, RAW_MAX as int, SCALE as int);
            }
            let root: u128 = isqrt_u128(wide * (SCALE as u128));
            proof {
                lemma_isqrt_is(self@ * SCALE, root as int);
            }
            Scalar { raw: root as i64 }
        }
    }
}

impl core::ops::Add for Scalar {
    type Output = Scalar;

    /// Saturating sum.
    fn add(self, rhs: Scalar) -> (r: Scalar)
        ensures
            r@ == fx_add(self@, rhs@),
    {
        proof {
            use_type_invariant(&self);
            use_type_invariant(&rhs);
        }
        let wide: i128 = self.raw as i128 + rhs.raw as i128;
        if wide > RAW_MAX as i128 {
            Scalar { raw: RAW_MAX }
        } else if wide < -(RAW_MAX as i128) {
            Scalar { raw: -RAW_MAX }
        } else {
            Scalar { raw: wide as i64 }
        }
    }
}

impl vstd::std_specs::ops::AddSpecImpl for Scalar {
    open spec fn obeys_add_spec() -> bool {
        true
    }

    open spec fn add_req(self, rhs: Scalar) -> bool {
        true
    }

    open spec fn add_spec(self, rhs: Scalar) -> Scalar {
        Scalar::of(fx_add(self@, rhs@))
    }
}

impl core::ops::Sub for Scalar {
    type Output = Scalar;

    /// Saturating difference.
    fn sub(self, rhs: Scalar) -> (r: Scalar)
        ensures
            r@ == fx_sub(self@, rhs@),
    {
        proof {
            use_type_invariant(&self);
            use_type_invariant(&rhs);
        }
        let wide: i128 = self.raw as i128 - rhs.raw as i128;
        if wide > RAW_MAX as i128 {
            Scalar { raw: RAW_MAX }
        } else if wide < -(RAW_MAX as i128) {
            Scalar { raw: -RAW_MAX }
        } else {
            Scalar { raw: wide as i64 }
        }
    }
}

impl vstd::std_specs::ops::SubSpecImpl for Scalar {
    open spec fn obeys_sub_spec() -> bool {
        true
    }

    open spec fn sub_req(self, rhs: Scalar) -> bool {
        true
    }

    open spec fn sub_spec(self, rhs: Scalar) -> Scalar {
        Scalar::of(fx_sub(self@, rhs@))
    }
}

impl core::ops::Neg for Scalar {
    type Output = Scalar;

    /// Negation, which is exact.
    fn neg(self) -> (r: Scalar)
        ensures
            r@ == fx_neg(self@),
            r@ == -self@,
    {
        proof {
            use_type_invariant(&self);
        }
        Scalar { raw: -self.raw }
    }
}

impl vstd::std_specs::ops::NegSpecImpl for Scalar {
    open spec fn obeys_neg_spec() -> bool {
        true
    }

    open spec fn neg_req(self) -> bool {
        true
    }

    open spec fn neg_spec(self) -> Scalar {
        Scalar::of(fx_neg(self@))
    }
}

impl core::ops::Mul for Scalar {
    type Output = Scalar;

    /// Product, rounded toward zero and saturated.
    fn mul(self, rhs: Scalar) -> (r: Scalar)
        ensures
            r@ == fx_mul(self@, rhs@),
    {
        proof {
            use_type_invariant(&self);
            use_type_invariant(&rhs);
        }
        let ma: u128 = magnitude_of(self.raw);
        let mb: u128 = magnitude_of(rhs.raw);
        proof {
            lemma_product_bound(ma as int, mb as int, RAW_MAX as int, RAW_MAX as int);
            assert(RAW_MAX * RAW_MAX < 0x4000_0000_0000_0000_0000_0000_0000_0000int);
            lemma_product_sign(self@, rhs@);
        }
        let q: u128 = (ma * mb) / (SCALE as u128);
        Scalar::signed((self.raw < 0) != (rhs.raw < 0), q)
    }
}

impl vstd::std_specs::ops::MulSpecImpl for Scalar {
    open spec fn obeys_mul_spec() -> bool {
        true
    }

    open spec fn mul_req(self, rhs: Scalar) -> bool {
        true
    }

    open spec fn mul_spec(self, rhs: Scalar) -> Scalar {
        Scalar::of(fx_mul(self@, rhs@))
    }
}

impl core::ops::Div for Scalar {
    type Output = Scalar;

    /// Quotient, rounded toward zero and saturated; a zero divisor gives the
    /// end of the range on the dividend's side.
    fn div(self, rhs: Scalar) -> (r: Scalar)
        ensures
            r@ == fx_div(self@, rhs@),
    {
        Scalar::from_ratio(self.raw(), rhs.raw())
    }
}

impl vstd::std_specs::ops::DivSpecImpl for Scalar {
    open spec fn obeys_div_spec() -> bool {
        true
    }

    open spec fn div_req(self, rhs: Scalar) -> bool {
        true
    }

    open spec fn div_spec(self, rhs: Scalar) -> Scalar {
        Scalar::of(fx_div(self@, rhs@))
    }
}

} // verus!
