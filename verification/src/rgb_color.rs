//! Conversion between accumulated sample colors and byte colors, with
//! gamma correction for gamma 2.0 (a square root per channel).
use vstd::prelude::*;

verus! {

use crate::geo::{Vec3, tdiv, sqrt_floor, wide_mul, div_i128, isqrt_u128, lemma_tdiv_bound,
    lemma_sqrt_floor_bounds, lemma_abs_mul_le};
use crate::interval::Interval;
use crate::UNIT;

/// Intensities are clamped just inside the unit range before byte
/// conversion (0.999 in units, truncated).
pub const COLOR_INTENSITY_MAX: i64 = 65470;

/// A byte color.
#[derive(Clone, Copy, Debug, PartialEq, Eq, Structural)]
pub struct Rgb {
    pub r: u8,
    pub g: u8,
    pub b: u8,
}

/// One channel of `to_float`: the accumulated value divided by the
/// sample count, gamma-corrected by a floor square root (zero for a
/// non-positive channel), clamped into the intensity range.
pub open spec fn spec_channel_to_float(v: int, samples: int) -> i64 {
    let scaled = tdiv(v, samples);
    let root = if scaled <= 0 {
        0
    } else {
        sqrt_floor((scaled * UNIT) as nat) as int
    };
    if root > COLOR_INTENSITY_MAX as int {
        COLOR_INTENSITY_MAX
    } else if root < -COLOR_INTENSITY_MAX as int {
        (-COLOR_INTENSITY_MAX) as i64
    } else {
        root as i64
    }
}

fn channel_to_float(v: i64, samples: u32) -> (r: i64)
    requires
        samples >= 1,
    ensures
        r == spec_channel_to_float(v as int, samples as int),
        0 <= r <= COLOR_INTENSITY_MAX,
{
    if v <= 0 {
        proof {
            lemma_tdiv_bound(v as int, samples as int, 0x8000_0000_0000_0000);
        }
        return 0;
    }
    let scaled: i64 = v / (samples as i64);
    if scaled <= 0 {
        return 0;
    }
    proof {
        lemma_abs_mul_le(scaled as int, UNIT as int, 0x8000_0000_0000_0000, UNIT as int);
        lemma_sqrt_floor_bounds((scaled as int * UNIT as int) as nat);
        let s = sqrt_floor((scaled as int * UNIT as int) as nat);
        assert(s <= 0x100_0000_0000) by (nonlinear_arith)
            requires
                s * s <= scaled as int * UNIT as int,
                scaled as int * UNIT as int <= 0x8000_0000_0000_0000int * 65536,
                s >= 0;
    }
    let w = wide_mul(scaled, UNIT);
    let root = isqrt_u128(w as u128) as i64;
    if root > COLOR_INTENSITY_MAX {
        COLOR_INTENSITY_MAX
    } else {
        root
    }
}

/// Averages the accumulated color over its sample count and applies
/// gamma correction, clamping each channel into the intensity range.
pub fn to_float(col: Vec3, samples_per_pixel: u32) -> (r: Vec3)
    requires
        samples_per_pixel >= 1,
    ensures
        r.x == spec_channel_to_float(col.x as int, samples_per_pixel as int),
        r.y == spec_channel_to_float(col.y as int, samples_per_pixel as int),
        r.z == spec_channel_to_float(col.z as int, samples_per_pixel as int),
        0 <= r.x <= COLOR_INTENSITY_MAX && 0 <= r.y <= COLOR_INTENSITY_MAX && 0 <= r.z
            <= COLOR_INTENSITY_MAX,
{
    Vec3 {
        x: channel_to_float(col.x, samples_per_pixel),
        y: channel_to_float(col.y, samples_per_pixel),
        z: channel_to_float(col.z, samples_per_pixel),
    }
}

/// One byte of `to_rgb_color`: 256 times the unit intensity.
pub open spec fn spec_channel_to_byte(c: int) -> u8 {
    let b = c * 256 / (UNIT as int);
    if b < 0 {
        0
    } else if b > 255 {
        255
    } else {
        b as u8
    }
}

fn channel_to_byte(c: i64) -> (r: u8)
    requires
        0 <= c <= COLOR_INTENSITY_MAX,
    ensures
        r == spec_channel_to_byte(c as int),
{
    let b = (c * 256) / UNIT;
    if b > 255 {
        255
    } else {
        b as u8
    }
}

/// The accumulated color of a pixel, averaged over its samples,
/// gamma-corrected and quantized to bytes.
pub fn to_rgb_color(col: Vec3, samples_per_pixel: u32) -> (r: Rgb)
    requires
        samples_per_pixel >= 1,
    ensures
        ({
            let c = Vec3 {
                x: spec_channel_to_float(col.x as int, samples_per_pixel as int),
                y: spec_channel_to_float(col.y as int, samples_per_pixel as int),
                z: spec_channel_to_float(col.z as int, samples_per_pixel as int),
            };
            r == (Rgb {
                r: spec_channel_to_byte(c.x as int),
                g: spec_channel_to_byte(c.y as int),
                b: spec_channel_to_byte(c.z as int),
            })
        }),
{
    let c = to_float(col, samples_per_pixel);
    Rgb { r: channel_to_byte(c.x), g: channel_to_byte(c.y), b: channel_to_byte(c.z) }
}

/// A byte color scaled back into unit intensities.
pub fn rgb_to_vec3(pixel: &Rgb) -> (r: Vec3)
    ensures
        r.x == pixel.r as int * UNIT as int / 255,
        r.y == pixel.g as int * UNIT as int / 255,
        r.z == pixel.b as int * UNIT as int / 255,
{
    Vec3 {
        x: (pixel.r as i64) * UNIT / 255,
        y: (pixel.g as i64) * UNIT / 255,
        z: (pixel.b as i64) * UNIT / 255,
    }
}

} // verus!
