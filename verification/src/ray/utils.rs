//! Mirror reflection and refraction of directions, and the encoding of
//! colours as text.

use core::ops::Neg;
use vstd::prelude::*;

use super::{Color, Vec3};
use crate::arith::trunc_div;
use crate::scalar::{Scalar, SCALE};

verus! {

/// The direction `v` mirrored at a surface with normal `n`:
/// `v - 2 (v . n) n`.
pub open spec fn reflect_spec(v: Vec3, n: Vec3) -> Vec3 {
    v.minus(n.scaled(Scalar::of(2 * SCALE)).scaled(v.dot_spec(n)))
}

pub fn reflect(v: &Vec3, n: &Vec3) -> (r: Vec3)
    ensures
        r == reflect_spec(*v, *n),
{
    *v - (*n * Scalar::from_int(2) * v.dot(n))
}

/// The direction of the unit vector `uv` after it crosses a surface with
/// unit normal `n` into a medium in which light is `refraction_ratio` times
/// as fast, by Snell's law: the part of `uv` along the surface is scaled by
/// the ratio, and the part along the normal makes up the unit length.
pub open spec fn refract_spec(uv: Vec3, n: Vec3, refraction_ratio: Scalar) -> Vec3 {
    let one = Scalar::of(SCALE as int);
    let cos_theta = uv.dot_spec(n).negated().min_spec(one);
    let r_out_perp = uv.plus(n.scaled(cos_theta)).scaled(refraction_ratio);
    let r_out_parallel = n.scaled(one.minus(r_out_perp.length_squared_spec()).sqrt_spec().negated());
    r_out_perp.plus(r_out_parallel)
}

pub fn refract(uv: &Vec3, n: &Vec3, refraction_ratio: Scalar) -> (r: Vec3)
    ensures
        r == refract_spec(*uv, *n, refraction_ratio),
{
    let cos_theta = uv.dot(n).neg().min(Scalar::one());
    let r_out_perp = (*uv + *n * cos_theta) * refraction_ratio;
    let r_out_parallel = *n * (Scalar::one() - r_out_perp.length_squared()).sqrt().neg();
    r_out_perp + r_out_parallel
}

/// The brightest level a channel can take before it is scaled to a byte:
/// 0.999, in steps of 2^-16.
pub const CHANNEL_MAX: i64 = 65470;

/// The byte that stands for one channel of a pixel: the sum of the samples
/// is divided by their number, the square root corrects for gamma, and the
/// result, confined to `[0, 0.999]`, is scaled to 256 levels and truncated.
pub open spec fn channel_spec(sum: Scalar, samples: u32) -> int {
    let mean = sum.over(Scalar::of(samples * SCALE));
    let level = mean.sqrt_spec().clamp_spec(Scalar::of(0), Scalar::of(CHANNEL_MAX as int));
    trunc_div(256 * level@, SCALE as int)
}

/// The three bytes of a pixel: red, green and blue.
pub open spec fn rgb_spec(color: Color, samples: u32) -> (int, int, int) {
    (
        channel_spec(Scalar::of(color@.x), samples),
        channel_spec(Scalar::of(color@.y), samples),
        channel_spec(Scalar::of(color@.z), samples),
    )
}

/// The decimal digits of `n` in ASCII, without leading zeros.
pub open spec fn decimal(n: nat) -> Seq<u8>
    decreases n,
{
    if n < 10 {
        seq![(48 + n) as u8]
    } else {
        decimal(n / 10).push((48 + n % 10) as u8)
    }
}

/// The line of text for one pixel: the three channels in decimal, separated
/// by a space and ended by a line feed.
pub open spec fn pixel_line(color: Color, samples: u32) -> Seq<u8> {
    let (r, g, b) = rgb_spec(color, samples);
    decimal(r as nat) + seq![32u8] + decimal(g as nat) + seq![32u8] + decimal(b as nat) + seq![
        10u8,
    ]
}

/// The head of a plain-text image of the given size with 255 as the
/// brightest value: `P3`, the width and the height, `255`, an empty line.
pub open spec fn ppm_header_spec(width: u32, height: u32) -> Seq<u8> {
    seq![80u8, 51u8, 10u8] + decimal(width as nat) + seq![32u8] + decimal(height as nat) + seq![
        10u8,
        50u8,
        53u8,
        53u8,
        10u8,
        10u8,
    ]
}

/// One channel of a pixel as a byte.
pub fn channel(sum: Scalar, samples: u32) -> (r: u8)
    ensures
        r == channel_spec(sum, samples),
{
    let mean = sum / Scalar::from_int(samples as i64);
    let level = mean.sqrt().clamp(Scalar::zero(), Scalar::from_raw(CHANNEL_MAX));
    ((256 * level.raw) / 65536) as u8
}

/// Appends the decimal digits of `n`.
pub fn push_decimal(out: &mut Vec<u8>, n: u32)
    ensures
        final(out)@ == old(out)@ + decimal(n as nat),
    decreases n,
{
    if n >= 10 {
        push_decimal(out, n / 10);
    }
    out.push(48 + (n % 10) as u8);
}

/// Appends the line of text for a pixel whose colour is the sum of
/// `samples` samples.
pub fn write_color(out: &mut Vec<u8>, color: Color, samples: u32)
    ensures
        final(out)@ == old(out)@ + pixel_line(color, samples),
{
    let r: u8 = channel(color.x(), samples);
    let g: u8 = channel(color.y(), samples);
    let b: u8 = channel(color.z(), samples);
    push_decimal(out, r as u32);
    out.push(32);
    push_decimal(out, g as u32);
    out.push(32);
    push_decimal(out, b as u32);
    out.push(10);
}

/// The head of a plain-text image.
pub fn ppm_header(width: u32, height: u32) -> (out: Vec<u8>)
    ensures
        out@ == ppm_header_spec(width, height),
{
    let mut out: Vec<u8> = Vec::new();
    out.push(80);
    out.push(51);
    out.push(10);
    push_decimal(&mut out, width);
    out.push(32);
    push_decimal(&mut out, height);
    out.push(10);
    out.push(50);
    out.push(53);
    out.push(53);
    out.push(10);
    out.push(10);
    out
}

} // verus!
