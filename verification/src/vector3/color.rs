//! Conversion of accumulated colour to output channel levels.

use crate::scalar::{
    fx_div, fx_mul, fx_sqrt, lemma_mul_whole, lemma_sqrt_nonnegative, sat, tquot, Scalar, SCALE,
};
use crate::utils::clamp;
use crate::vector3::vec3::Color;
use vstd::arithmetic::div_mod::{lemma_div_is_ordered, lemma_div_pos_is_pos};
use vstd::prelude::*;

verus! {

/// Raw value of the largest corrected intensity that is written: 0.999.
pub const RAW_INTENSITY_CAP: i64 = 999_000_000;

/// The corrected intensity of a channel: the square root of the mean of the
/// samples summed in `sum`, kept between zero and the cap.
pub open spec fn corrected_intensity(sum: int, samples: int) -> int {
    let mean = fx_mul(fx_div(SCALE as int, sat(samples * SCALE)), sum);
    if fx_sqrt(mean) > RAW_INTENSITY_CAP {
        RAW_INTENSITY_CAP as int
    } else {
        fx_sqrt(mean)
    }
}

/// The level from 0 to 255 written for a channel: the whole part of 256
/// times the corrected intensity.
pub open spec fn channel_level(sum: int, samples: int) -> int {
    tquot(fx_mul(256 * SCALE, corrected_intensity(sum, samples)), SCALE as int)
}

/// The level from 0 to 255 for a channel whose samples sum to `sum`.
pub fn channel_byte(sum: Scalar, samples_per_pixel: i64) -> (level: i64)
    ensures
        level == channel_level(sum@, samples_per_pixel as int),
        0 <= level <= 255,
{
    // Divide the color by the number of samples and gamma-correct for gamma=2.0.
    let scale = Scalar::one() / Scalar::from_int(samples_per_pixel);
    let corrected = (scale * sum).sqrt();
    let kept = clamp(corrected, Scalar::zero(), Scalar::from_raw(RAW_INTENSITY_CAP));
    let scaled = Scalar::from_int(256) * kept;
    proof {
        lemma_sqrt_nonnegative(fx_mul(scale@, sum@));
        lemma_mul_whole(kept@, 256);
        lemma_div_pos_is_pos(scaled@, SCALE as int);
        lemma_div_is_ordered(scaled@, 255_744_000_000, SCALE as int);
        assert(255_744_000_000int / 1_000_000_000 == 255);
    }
    scaled.to_int()
}

/// The red, green and blue levels, each from 0 to 255, for a pixel whose
/// samples sum to `pixel_color`.
pub fn pixel_levels(pixel_color: Color, samples_per_pixel: i64) -> (rgb: (i64, i64, i64))
    ensures
        rgb.0 == channel_level(pixel_color@.x, samples_per_pixel as int),
        rgb.1 == channel_level(pixel_color@.y, samples_per_pixel as int),
        rgb.2 == channel_level(pixel_color@.z, samples_per_pixel as int),
        0 <= rgb.0 <= 255,
        0 <= rgb.1 <= 255,
        0 <= rgb.2 <= 255,
{
    (
        channel_byte(pixel_color.x(), samples_per_pixel),
        channel_byte(pixel_color.y(), samples_per_pixel),
        channel_byte(pixel_color.z(), samples_per_pixel),
    )
}

} // verus!
