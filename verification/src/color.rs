//! Linear colors and their conversion to bytes.
use crate::fixed::{is_floor_sqrt, lemma_floor_sqrt_unique, scale_up, Fixed};
use crate::interval::Interval;
use crate::vec3::Vec3;
use vstd::prelude::*;

verus! {

/// A linear color: red, green and blue in `x`, `y` and `z`.
pub type Color = Vec3;

pub open spec fn spec_black() -> Color {
    Vec3::spec_zero()
}

pub open spec fn spec_white() -> Color {
    Vec3 { x: Fixed::spec_one(), y: Fixed::spec_one(), z: Fixed::spec_one() }
}

pub fn black() -> (c: Color)
    ensures
        c == spec_black(),
{
    Vec3::zero()
}

pub fn white() -> (c: Color)
    ensures
        c == spec_white(),
{
    Vec3 { x: Fixed::one(), y: Fixed::one(), z: Fixed::one() }
}

/// The square root of every channel, which turns linear light into what a
/// display expects.
pub open spec fn spec_linear_to_gamma(linear: Color) -> Color {
    Vec3 { x: linear.x.spec_sqrt(), y: linear.y.spec_sqrt(), z: linear.z.spec_sqrt() }
}

/// The range of a channel that is turned into a byte: from 0 to 0.999.
pub open spec fn spec_intensity() -> Interval {
    Interval { min: Fixed::spec_zero(), max: Fixed::spec_from_ratio(999, 1000) }
}

/// The byte for a channel: the channel is held inside the intensity range,
/// multiplied by 256 and rounded down.
pub open spec fn spec_quantize(channel: Fixed) -> u8 {
    (spec_intensity().spec_clamp(channel)@ * 256 / 0x1_0000_0000) as u8
}

/// The three bytes of a pixel whose samples add up to `color`.
pub open spec fn spec_convert_color(color: Color, samples_per_pixel: u32) -> Seq<u8> {
    let mean = color.spec_div(Fixed::spec_from_int(samples_per_pixel as int));
    let shown = spec_linear_to_gamma(mean);
    seq![spec_quantize(shown.x), spec_quantize(shown.y), spec_quantize(shown.z)]
}

pub fn linear_to_gamma(linear: Color) -> (c: Color)
    ensures
        c == spec_linear_to_gamma(linear),
{
    Vec3 { x: linear.x.sqrt(), y: linear.y.sqrt(), z: linear.z.sqrt() }
}

/// The byte for a channel.
pub fn quantize(channel: Fixed) -> (b: u8)
    ensures
        b == spec_quantize(channel),
{
    let intensity = Interval::new(Fixed::zero(), Fixed::from_ratio(999, 1000));
    let held: i64 = intensity.clamp(channel).value();
    assert(0 <= held <= 4290672328);
    (held * 256 / 0x1_0000_0000) as u8
}

/// Turns the sum of the samples of a pixel into its three bytes: the sum
/// is divided by the number of samples, gamma-corrected and quantized.
pub fn convert_color(color: Color, samples_per_pixel: u32) -> (out: [u8; 3])
    ensures
        out@ == spec_convert_color(color, samples_per_pixel),
{
    let mean = color.div(Fixed::from_int(samples_per_pixel as i64));
    let shown = linear_to_gamma(mean);
    let out = [quantize(shown.x), quantize(shown.y), quantize(shown.z)];
    assert(out@ =~= spec_convert_color(color, samples_per_pixel));
    out
}

/// A pixel all of whose samples are white is as bright as a pixel can be,
/// however many samples it has.
pub proof fn lemma_white_is_brightest(samples_per_pixel: u32)
    requires
        samples_per_pixel >= 1,
    ensures
        spec_convert_color(
            Vec3 {
                x: Fixed::spec_from_int(samples_per_pixel as int),
                y: Fixed::spec_from_int(samples_per_pixel as int),
                z: Fixed::spec_from_int(samples_per_pixel as int),
            },
            samples_per_pixel,
        ) == seq![255u8, 255u8, 255u8],
{
    let n = samples_per_pixel as int;
    let total = Fixed::spec_from_int(n);
    assert(total@ > 0);
    let mean = total.spec_div(total);
    assert(scale_up(total@) / total@ == 0x1_0000_0000) by (nonlinear_arith)
        requires
            total@ > 0,
            scale_up(total@) == total@ * 0x1_0000_0000,
    ;
    assert(mean == Fixed::spec_one());
    assert(is_floor_sqrt(scale_up(0x1_0000_0000), 0x1_0000_0000)) by (nonlinear_arith)
        requires
            scale_up(0x1_0000_0000) == 0x1_0000_0000 * 0x1_0000_0000,
    ;
    lemma_floor_sqrt_unique(scale_up(0x1_0000_0000), 0x1_0000_0000);
    assert(mean.spec_sqrt() == Fixed::spec_one());
    assert(spec_quantize(Fixed::spec_one()) == 255u8);
}

} // verus!
