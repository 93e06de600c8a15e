//! How close to one the length of a normalised vector is.

use crate::scalar::{
    fx_div, fx_mul, fx_sqrt, is_isqrt, isqrt, lemma_isqrt_exists, lemma_product_sign, magnitude,
    SCALE,
};
use crate::vector3::vec3::V3;
use vstd::arithmetic::div_mod::lemma_fundamental_div_mod;
use vstd::prelude::*;

verus! {

/// Largest component magnitude for which the law of this module is stated:
/// one thousand.
pub const RAW_COMPONENT_BOUND: i64 = 1_000_000_000_000;

/// Smallest length for which the law of this module is stated: one tenth.
pub const RAW_LENGTH_FLOOR: i64 = 100_000_000;

/// How far from one the length of a normalised vector may lie: a millionth.
pub const RAW_UNIT_TOLERANCE: i64 = 1_000;

/// The vectors for which the law of this module is stated: no component
/// exceeds [`RAW_COMPONENT_BOUND`] in magnitude, and the length is at least
/// [`RAW_LENGTH_FLOOR`].
pub open spec fn well_scaled(v: V3) -> bool {
    &&& magnitude(v.x) <= RAW_COMPONENT_BOUND
    &&& magnitude(v.y) <= RAW_COMPONENT_BOUND
    &&& magnitude(v.z) <= RAW_COMPONENT_BOUND
    &&& RAW_LENGTH_FLOOR <= v.length()
}

/// Whether the length of `u` is one up to [`RAW_UNIT_TOLERANCE`].
pub open spec fn nearly_unit(u: V3) -> bool {
    SCALE - RAW_UNIT_TOLERANCE <= u.length() <= SCALE + RAW_UNIT_TOLERANCE
}

/// The fixed-point square of a moderate value is the exact square divided by
/// the scale, rounded down.
proof fn lemma_square_floor(a: int)
    requires
        magnitude(a) <= 2_000_000_000_000,
    ensures
        0 <= fx_mul(a, a) <= 4_000_000_000_000_000,
        fx_mul(a, a) * 1_000_000_000 <= a * a < fx_mul(a, a) * 1_000_000_000 + 1_000_000_000,
{
    let p = a * a;
    assert(0 <= p <= 4_000_000_000_000_000_000_000_000) by (nonlinear_arith)
        requires
            p == a * a,
            -2_000_000_000_000 <= a <= 2_000_000_000_000,
    ;
    lemma_fundamental_div_mod(p, 1_000_000_000);
    let q = p / 1_000_000_000;
    assert(0 <= q <= 4_000_000_000_000_000) by (nonlinear_arith)
        requires
            p == 1_000_000_000 * q + p % 1_000_000_000,
            0 <= p % 1_000_000_000 < 1_000_000_000,
            0 <= p <= 4_000_000_000_000_000_000_000_000,
    ;
}

/// The magnitude of a fixed-point quotient is the exact quotient of the
/// magnitudes, rounded down, when that is moderate.
proof fn lemma_quotient_floor(x: int, len: int)
    requires
        magnitude(x) <= 10_000_000_000_000,
        100_000_000 <= len,
    ensures
        magnitude(fx_div(x, len)) * len <= magnitude(x) * 1_000_000_000 < magnitude(
            fx_div(x, len),
        ) * len + len,
        magnitude(fx_div(x, len)) <= 100_000_000_000_000,
{
    lemma_product_sign(x, SCALE as int);
    let n = magnitude(x) * 1_000_000_000;
    lemma_fundamental_div_mod(n, len);
    let m = n / len;
    assert(0 <= m <= 100_000_000_000_000) by (nonlinear_arith)
        requires
            n == len * m + n % len,
            0 <= n % len < len,
            0 <= n <= 10_000_000_000_000_000_000_000,
            100_000_000 <= len,
    ;
    assert(len * m == m * len) by (nonlinear_arith);
}

/// Normalising a well-scaled vector gives a vector whose length is one up to
/// a millionth: for components of magnitude at most a thousand and a length
/// of at least a tenth, the length of the normalised vector differs from one
/// by at most [`RAW_UNIT_TOLERANCE`] raw units.
pub proof fn lemma_unit_length(v: V3)
    requires
        well_scaled(v),
    ensures
        nearly_unit(v.unit()),
{
    let s: int = 1_000_000_000;
    let (x, y, z) = (v.x, v.y, v.z);
    lemma_square_floor(x);
    lemma_square_floor(y);
    lemma_square_floor(z);
    let q = v.length_squared();
    assert(q == fx_mul(x, x) + fx_mul(y, y) + fx_mul(z, z));
    let n2 = x * x + y * y + z * z;
    assert(q * s <= n2 < q * s + 3 * s);
    let len = v.length();
    assert(q > 0);
    assert(q * s >= 0);
    lemma_isqrt_exists(q * s);
    assert(len == isqrt(q * s));
    assert(is_isqrt(q * s, len));
    // len^2 <= n2 < (len + 1)^2 + 3 s
    assert(len * len <= n2);
    assert(n2 < (len + 1) * (len + 1) + 3 * s);
    // every component is smaller in magnitude than len + 16
    lemma_component_below(x, n2, len);
    lemma_component_below(y, n2, len);
    lemma_component_below(z, n2, len);

    let u = v.unit();
    lemma_quotient_floor(x, len);
    lemma_quotient_floor(y, len);
    lemma_quotient_floor(z, len);
    let (a, b, c) = (magnitude(u.x), magnitude(u.y), magnitude(u.z));
    lemma_quotient_near_one(magnitude(x), len, a);
    lemma_quotient_near_one(magnitude(y), len, b);
    lemma_quotient_near_one(magnitude(z), len, c);
    lemma_square_floor(u.x);
    lemma_square_floor(u.y);
    lemma_square_floor(u.z);
    let q2 = u.length_squared();
    assert(q2 == fx_mul(u.x, u.x) + fx_mul(u.y, u.y) + fx_mul(u.z, u.z));
    let m2 = a * a + b * b + c * c;
    assert(u.x * u.x == a * a && u.y * u.y == b * b && u.z * u.z == c * c) by (nonlinear_arith)
        requires
            a == magnitude(u.x),
            b == magnitude(u.y),
            c == magnitude(u.z),
            magnitude(u.x) == (if u.x < 0 {
                -u.x
            } else {
                u.x
            }),
            magnitude(u.y) == (if u.y < 0 {
                -u.y
            } else {
                u.y
            }),
            magnitude(u.z) == (if u.z < 0 {
                -u.z
            } else {
                u.z
            }),
    ;
    assert(q2 * s <= m2 < q2 * s + 3 * s);
    assert(x * x == magnitude(x) * magnitude(x) && y * y == magnitude(y) * magnitude(y) && z * z
        == magnitude(z) * magnitude(z)) by (nonlinear_arith)
        requires
            magnitude(x) == (if x < 0 {
                -x
            } else {
                x
            }),
            magnitude(y) == (if y < 0 {
                -y
            } else {
                y
            }),
            magnitude(z) == (if z < 0 {
                -z
            } else {
                z
            }),
    ;
    // the squares of the quotients, scaled back, bracket the squares of the components
    lemma_scaled_square_bracket(magnitude(x), len, a);
    lemma_scaled_square_bracket(magnitude(y), len, b);
    lemma_scaled_square_bracket(magnitude(z), len, c);
    let l2 = len * len;
    // upper: m2 * len^2 <= s^2 * n2
    assert(m2 * l2 <= s * s * n2) by (nonlinear_arith)
        requires
            m2 == a * a + b * b + c * c,
            n2 == x * x + y * y + z * z,
            x * x == magnitude(x) * magnitude(x),
            y * y == magnitude(y) * magnitude(y),
            z * z == magnitude(z) * magnitude(z),
            a * a * l2 <= s * s * (magnitude(x) * magnitude(x)),
            b * b * l2 <= s * s * (magnitude(y) * magnitude(y)),
            c * c * l2 <= s * s * (magnitude(z) * magnitude(z)),
    ;
    // lower: (m2 + 2 (a + b + c) + 3) * len^2 > s^2 * n2
    assert((m2 + 2 * (a + b + c) + 3) * l2 > s * s * n2) by (nonlinear_arith)
        requires
            m2 == a * a + b * b + c * c,
            n2 == x * x + y * y + z * z,
            x * x == magnitude(x) * magnitude(x),
            y * y == magnitude(y) * magnitude(y),
            z * z == magnitude(z) * magnitude(z),
            (a + 1) * (a + 1) * l2 > s * s * (magnitude(x) * magnitude(x)),
            (b + 1) * (b + 1) * l2 > s * s * (magnitude(y) * magnitude(y)),
            (c + 1) * (c + 1) * l2 > s * s * (magnitude(z) * magnitude(z)),
    ;
    lemma_length_of_unit(q2, m2, a + b + c, n2, len);
}

/// A component of a vector whose squared length is `n2` is, in magnitude,
/// below the rounded length plus sixteen.
proof fn lemma_component_below(x: int, n2: int, len: int)
    requires
        x * x <= n2,
        n2 < (len + 1) * (len + 1) + 3_000_000_000,
        100_000_000 <= len,
    ensures
        magnitude(x) < len + 16,
{
    assert(magnitude(x) < len + 16) by (nonlinear_arith)
        requires
            x * x < (len + 1) * (len + 1) + 3_000_000_000,
            100_000_000 <= len,
            magnitude(x) == (if x < 0 {
                -x
            } else {
                x
            }),
    ;
}

/// The rounded quotient of a component by the length is at most one plus a
/// little.
proof fn lemma_quotient_near_one(mx: int, len: int, a: int)
    requires
        0 <= mx < len + 16,
        100_000_000 <= len,
        0 <= a,
        a * len <= mx * 1_000_000_000,
    ensures
        a <= 1_000_000_160,
{
    assert(a <= 1_000_000_160) by (nonlinear_arith)
        requires
            0 <= mx < len + 16,
            100_000_000 <= len,
            0 <= a,
            a * len <= mx * 1_000_000_000,
    ;
}

/// From the bracket of a rounded quotient to the bracket of its square.
proof fn lemma_scaled_square_bracket(mx: int, len: int, a: int)
    requires
        0 <= mx,
        0 < len,
        0 <= a,
        a * len <= mx * 1_000_000_000 < a * len + len,
    ensures
        a * a * (len * len) <= 1_000_000_000 * 1_000_000_000 * (mx * mx),
        (a + 1) * (a + 1) * (len * len) > 1_000_000_000 * 1_000_000_000 * (mx * mx),
{
    let lo = a * len;
    let mid = mx * 1_000_000_000;
    let hi = (a + 1) * len;
    assert(hi == a * len + len) by (nonlinear_arith)
        requires
            hi == (a + 1) * len,
    ;
    assert(0 <= lo) by (nonlinear_arith)
        requires
            lo == a * len,
            0 <= a,
            0 < len,
    ;
    assert(lo * lo <= mid * mid) by (nonlinear_arith)
        requires
            0 <= lo <= mid,
    ;
    assert(mid * mid < hi * hi) by (nonlinear_arith)
        requires
            0 <= mid < hi,
    ;
    assert(lo * lo == a * a * (len * len)) by (nonlinear_arith)
        requires
            lo == a * len,
    ;
    assert(hi * hi == (a + 1) * (a + 1) * (len * len)) by (nonlinear_arith)
        requires
            hi == (a + 1) * len,
    ;
    assert(mid * mid == 1_000_000_000 * 1_000_000_000 * (mx * mx)) by (nonlinear_arith)
        requires
            mid == mx * 1_000_000_000,
    ;
}

/// The final step: from the brackets of the squared length of the
/// normalised vector to the bracket of its length.
proof fn lemma_length_of_unit(q2: int, m2: int, sum: int, n2: int, len: int)
    requires
        100_000_000 <= len,
        len * len <= n2 < (len + 1) * (len + 1) + 3_000_000_000,
        q2 * 1_000_000_000 <= m2 < q2 * 1_000_000_000 + 3_000_000_000,
        0 <= sum <= 3_000_000_480,
        m2 * (len * len) <= 1_000_000_000 * 1_000_000_000 * n2,
        (m2 + 2 * sum + 3) * (len * len) > 1_000_000_000 * 1_000_000_000 * n2,
    ensures
        999_999_000 <= fx_sqrt(q2) <= 1_000_001_000,
{
    let s: int = 1_000_000_000;
    let l2 = len * len;
    assert(l2 > 0) by (nonlinear_arith)
        requires
            l2 == len * len,
            100_000_000 <= len,
    ;
    // lower bound on m2
    assert(m2 + 2 * sum + 3 > s * s) by (nonlinear_arith)
        requires
            (m2 + 2 * sum + 3) * l2 > s * s * n2,
            l2 <= n2,
            l2 > 0,
            s == 1_000_000_000,
    ;
    assert(q2 * s > s * s - 10 * s);
    assert(q2 > 0);
    lemma_isqrt_exists(q2 * s);
    let r = isqrt(q2 * s);
    assert(fx_sqrt(q2) == r);
    assert(r >= 999_999_000) by (nonlinear_arith)
        requires
            (r + 1) * (r + 1) > q2 * s,
            q2 * s > s * s - 10 * s,
            s == 1_000_000_000,
            0 <= r,
    ;
    // upper bound
    assert(r * r * l2 <= s * s * n2) by (nonlinear_arith)
        requires
            r * r <= q2 * s,
            q2 * s <= m2,
            m2 * l2 <= s * s * n2,
            l2 > 0,
    ;
    assert(s * s * n2 < s * s * (l2 + 2 * len + 1 + 3 * s)) by (nonlinear_arith)
        requires
            n2 < (len + 1) * (len + 1) + 3 * s,
            l2 == len * len,
            s == 1_000_000_000,
    ;
    assert(r <= 1_000_001_000) by (nonlinear_arith)
        requires
            r * r * l2 < s * s * (l2 + 2 * len + 1 + 3 * s),
            l2 == len * len,
            100_000_000 <= len,
            s == 1_000_000_000,
            0 <= r,
    ;
}

} // verus!
