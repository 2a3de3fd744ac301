//! The perceptual color model: a luminance/chrominance (YIQ-like) triple
//! derived from 8-bit RGB, and a weighted squared distance over it.
//!
//! The model's coefficients are fixed NTSC-like rationals. They are
//! held exactly: a component is the
//! integer `coefficient * 10^8 * channel`, so `COLOR_SCALE` units equal
//! one unit of the 8-bit channel range, and a squared distance carries a
//! further factor `COLOR_SCALE^2 * WEIGHT_SCALE`.

use vstd::prelude::*;

verus! {

use crate::img::Rgb;
use crate::img::Rgba;
use crate::img::rgb_part;

/// Fixed-point scale of a Y/I/Q component: 10^8 units per channel unit.
pub const COLOR_SCALE: i64 = 100_000_000;

/// Luminance coefficients, scaled by `COLOR_SCALE`: 0.29889531 R,
/// 0.58662247 G, 0.11448223 B.
pub const Y_FROM_R: i64 = 29_889_531;

pub const Y_FROM_G: i64 = 58_662_247;

pub const Y_FROM_B: i64 = 11_448_223;

/// First chrominance coefficients, scaled by `COLOR_SCALE`: 0.59597799 R
/// minus 0.2741716 G minus 0.32180189 B.
pub const I_FROM_R: i64 = 59_597_799;

pub const I_FROM_G: i64 = 27_417_160;

pub const I_FROM_B: i64 = 32_180_189;

/// Second chrominance coefficients, scaled by `COLOR_SCALE`: 0.21147019 R
/// minus 0.52261711 G plus 0.31114694 B.
pub const Q_FROM_R: i64 = 21_147_019;

pub const Q_FROM_G: i64 = 52_261_711;

pub const Q_FROM_B: i64 = 31_114_694;

/// Scale of the distance weights: 10^4 units per unit.
pub const WEIGHT_SCALE: i128 = 10_000;

/// Distance weights, scaled by `WEIGHT_SCALE`: 0.5053 for luminance,
/// 0.299 and 0.1957 for the two chrominance components, so perceived
/// brightness dominates the metric.
pub const WEIGHT_Y: i128 = 5_053;

pub const WEIGHT_I: i128 = 2_990;

pub const WEIGHT_Q: i128 = 1_957;

/// A bound on the magnitude of any component derived from 8-bit RGB,
/// with room to spare.
pub const COMPONENT_LIMIT: i64 = 26_000_000_000;

/// The luminance of an RGB triple, in `COLOR_SCALE` units.
pub open spec fn luminance(rgb: Rgb) -> int {
    Y_FROM_R * rgb.r + Y_FROM_G * rgb.g + Y_FROM_B * rgb.b
}

/// The first chrominance component, in `COLOR_SCALE` units.
pub open spec fn chroma_i(rgb: Rgb) -> int {
    I_FROM_R * rgb.r - I_FROM_G * rgb.g - I_FROM_B * rgb.b
}

/// The second chrominance component, in `COLOR_SCALE` units.
pub open spec fn chroma_q(rgb: Rgb) -> int {
    Q_FROM_R * rgb.r - Q_FROM_G * rgb.g + Q_FROM_B * rgb.b
}

/// The luminance difference of two RGB triples, in `COLOR_SCALE` units.
pub open spec fn luminance_delta(left: Rgb, right: Rgb) -> int {
    luminance(left) - luminance(right)
}

/// The color value of an RGB triple: all three components in
/// `COLOR_SCALE` units.
pub open spec fn yiq_of(rgb: Rgb) -> Yiq {
    Yiq { y: luminance(rgb) as i64, i: chroma_i(rgb) as i64, q: chroma_q(rgb) as i64 }
}

/// A bound on the magnitude of any squared distance between color values
/// that are `bounded`.
pub const DISTANCE_LIMIT: i128 = 27_040_000_000_000_000_000_000_000;

/// The signed weighted squared distance of two triples, in
/// `COLOR_SCALE^2 * WEIGHT_SCALE` units. Its magnitude is the metric;
/// the sign records which side is brighter.
pub open spec fn squared_distance_value(a: Yiq, b: Yiq) -> int {
    let dy = a.y - b.y;
    let di = a.i - b.i;
    let dq = a.q - b.q;
    let d = WEIGHT_Y * (dy * dy) + WEIGHT_I * (di * di) + WEIGHT_Q * (dq * dq);
    if a.y > b.y {
        -d
    } else {
        d
    }
}

/// A perceptual color value: luminance and two chrominance components in
/// `COLOR_SCALE` fixed-point units.
#[derive(PartialEq, Eq, Structural, Clone, Copy, Debug)]
pub struct Yiq {
    pub y: i64,
    pub i: i64,
    pub q: i64,
}

impl Yiq {
    /// All components within the range reachable from 8-bit RGB.
    pub open spec fn bounded(&self) -> bool {
        -COMPONENT_LIMIT <= self.y <= COMPONENT_LIMIT && -COMPONENT_LIMIT <= self.i
            <= COMPONENT_LIMIT && -COMPONENT_LIMIT <= self.q <= COMPONENT_LIMIT
    }

    /// The luminance of an RGB triple, in `COLOR_SCALE` units.
    pub fn rgb2y(rgb: &Rgb) -> (y: i64)
        ensures
            y == luminance(*rgb),
            0 <= y <= 255 * (Y_FROM_R + Y_FROM_G + Y_FROM_B),
    {
        Y_FROM_R * (rgb.r as i64) + Y_FROM_G * (rgb.g as i64) + Y_FROM_B * (rgb.b as i64)
    }

    /// The first chrominance component, in `COLOR_SCALE` units.
    pub fn rgb2i(rgb: &Rgb) -> (i: i64)
        ensures
            i == chroma_i(*rgb),
    {
        I_FROM_R * (rgb.r as i64) - I_FROM_G * (rgb.g as i64) - I_FROM_B * (rgb.b as i64)
    }

    /// The second chrominance component, in `COLOR_SCALE` units.
    pub fn rgb2q(rgb: &Rgb) -> (q: i64)
        ensures
            q == chroma_q(*rgb),
    {
        Q_FROM_R * (rgb.r as i64) - Q_FROM_G * (rgb.g as i64) + Q_FROM_B * (rgb.b as i64)
    }

    /// The color value of a pixel; the alpha channel does not enter the
    /// model.
    pub fn from_rgba(rgba: &Rgba) -> (v: Yiq)
        ensures
            v == yiq_of(rgb_part(*rgba)),
            v.y == luminance(rgb_part(*rgba)),
            v.i == chroma_i(rgb_part(*rgba)),
            v.q == chroma_q(rgb_part(*rgba)),
            v.bounded(),
    {
        let rgb = rgba.to_rgb();
        let y = Self::rgb2y(&rgb);
        let i = Self::rgb2i(&rgb);
        let q = Self::rgb2q(&rgb);
        Yiq { y, i, q }
    }

    /// The luminance difference of two RGB triples, in `COLOR_SCALE`
    /// units.
    pub fn delta_y(left: &Rgb, right: &Rgb) -> (d: i64)
        ensures
            d == luminance_delta(*left, *right),
    {
        Self::rgb2y(left) - Self::rgb2y(right)
    }

    /// The signed weighted squared distance between two color values, in
    /// `COLOR_SCALE^2 * WEIGHT_SCALE` units. The magnitude measures the
    /// perceived difference; the sign is negative exactly when `self` is
    /// the brighter side.
    pub fn squared_distance(&self, other: &Yiq) -> (d: i128)
        requires
            self.bounded(),
            other.bounded(),
        ensures
            d == squared_distance_value(*self, *other),
            -DISTANCE_LIMIT <= d <= DISTANCE_LIMIT,
    {
        let dy: i128 = self.y as i128 - other.y as i128;
        let di: i128 = self.i as i128 - other.i as i128;
        let dq: i128 = self.q as i128 - other.q as i128;
        proof {
            lemma_square_bound(dy as int, 2 * COMPONENT_LIMIT as int);
            lemma_square_bound(di as int, 2 * COMPONENT_LIMIT as int);
            lemma_square_bound(dq as int, 2 * COMPONENT_LIMIT as int);
        }
        let d: i128 = WEIGHT_Y * (dy * dy) + WEIGHT_I * (di * di) + WEIGHT_Q * (dq * dq);
        if self.y > other.y {
            -d
        } else {
            d
        }
    }

    /// The perceptually linear distance between two color values: the
    /// floor square root of the squared distance's magnitude. One unit
    /// of the result is `COLOR_SCALE * sqrt(WEIGHT_SCALE)` units of the
    /// channel range; exposed for diagnostics, not used per pixel.
    pub fn square_root_distance(&self, other: &Yiq) -> (r: u64)
        requires
            self.bounded(),
            other.bounded(),
        ensures
            (r as int) * (r as int) <= vstd::math::abs(
                squared_distance_value(*self, *other),
            ) < (r as int + 1) * (r as int + 1),
    {
        let d: i128 = self.squared_distance(other);
        let magnitude: u128 = if d < 0 {
            (-d) as u128
        } else {
            d as u128
        };
        assert(magnitude == vstd::math::abs(d as int));
        let mut low: u64 = 0;
        let mut high: u64 = 6_000_000_000_000;
        assert((high as int) * (high as int) > DISTANCE_LIMIT) by (nonlinear_arith)
            requires
                high == 6_000_000_000_000,
        ;
        while high - low > 1
            invariant
                low < high <= 6_000_000_000_000,
                (low as int) * (low as int) <= magnitude,
                magnitude < (high as int) * (high as int),
            decreases high - low,
        {
            let mid: u64 = low + (high - low) / 2;
            assert((mid as int) * (mid as int) <= 36_000_000_000_000_000_000_000_000)
                by (nonlinear_arith)
                requires
                    mid <= 6_000_000_000_000,
            ;
            if (mid as u128) * (mid as u128) <= magnitude {
                low = mid;
            } else {
                high = mid;
            }
        }
        assert(high == low + 1);
        low
    }
}

/// A magnitude bound squares to a bound on the square.
#[verifier::nonlinear]
pub proof fn lemma_square_bound(v: int, limit: int)
    requires
        -limit <= v <= limit,
        0 <= limit,
    ensures
        0 <= v * v <= limit * limit,
{
}

} // verus!
