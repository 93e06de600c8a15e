//! Uniform random scalars and small numeric helpers.

use crate::scalar::{fx_div, fx_mul, Scalar, SCALE};
use rand::Rng;
use vstd::prelude::*;

verus! {

/// Raw value of the circle constant, rounded toward zero.
pub const RAW_PI: i64 = 3_141_592_653;

/// Draws one integer from the half-open range `low..high` by a call of
/// `rand::Rng::gen_range` on the generator that `rand::thread_rng` returns.
/// That call panics on an empty range, so the range must not be empty; for a
/// non-empty integer range it returns `low` plus an offset below
/// `high - low`, which is all this contract claims. Nothing is claimed about
/// the distribution, and two calls may differ. The generator is seeded from
/// the operating system when a thread first uses it; should that fail, the
/// call panics, which this contract does not cover.
#[verifier::external_body]
fn uniform_raw(low: i64, high: i64) -> (r: i64)
    requires
        low < high,
    ensures
        low <= r < high,
{
    rand::thread_rng().gen_range(low..high)
}

/// A random scalar in `[0, 1)`.
pub fn random_double() -> (r: Scalar)
    ensures
        0 <= r@ < SCALE,
{
    Scalar::from_raw(uniform_raw(0, SCALE))
}

/// A random scalar in `[min, max)`, for a non-empty range.
pub fn random_double_range(min: Scalar, max: Scalar) -> (r: Scalar)
    requires
        min@ < max@,
    ensures
        min@ <= r@ < max@,
{
    Scalar::from_raw(uniform_raw(min.raw(), max.raw()))
}

/// Converts an angle in degrees to radians: `deg * pi / 180`.
pub fn degrees_to_radians(deg: Scalar) -> (r: Scalar)
    ensures
        r@ == fx_div(fx_mul(deg@, RAW_PI as int), 180 * SCALE),
{
    deg * Scalar::from_raw(RAW_PI) / Scalar::from_int(180)
}

/// Restricts `x` to the interval from `min` to `max`: `min` when `x` lies
/// below it, otherwise `max` when `x` lies above that, otherwise `x` itself.
pub fn clamp(x: Scalar, min: Scalar, max: Scalar) -> (r: Scalar)
    ensures
        r == if x@ < min@ {
            min
        } else if x@ > max@ {
            max
        } else {
            x
        },
{
    if x < min {
        return min;
    }
    if x > max {
        return max;
    }
    x
}

} // verus!
