//! Perceptual, pixel-level comparison of two raster images.
//!
//! The crate classifies every coordinate of a left image against a right
//! image using a luminance/chrominance color metric with a tunable
//! threshold, suppresses differences that look like anti-aliasing
//! artifacts, and composes a diff image plus a difference count from the
//! classifications. All arithmetic is exact fixed-point integer
//! arithmetic over the model's fixed rational coefficients.

use vstd::prelude::*;

pub mod img;
pub mod cli;
pub mod diff;
pub mod yiq;

verus! {

use crate::img::Image;
use crate::img::rgb_part;
use crate::yiq::Yiq;
use crate::yiq::luminance_delta;
use crate::yiq::COLOR_SCALE;
use crate::yiq::Y_FROM_R;
use crate::yiq::Y_FROM_G;
use crate::yiq::Y_FROM_B;
use vstd::arithmetic::div_mod::lemma_fundamental_div_mod_converse;

/// Saturating decrement, used to clamp a neighborhood at a lower grid edge.
pub open spec fn sat_sub_one(v: u32) -> u32 {
    if v == 0 {
        0
    } else {
        (v - 1) as u32
    }
}

/// Saturating increment, used before clamping a neighborhood at an upper
/// grid edge.
pub open spec fn sat_add_one(v: u32) -> u32 {
    if v == u32::MAX {
        u32::MAX
    } else {
        (v + 1) as u32
    }
}

/// The smaller of two coordinates, used to clamp a neighborhood.
pub open spec fn min_u32(a: u32, b: u32) -> u32 {
    if a < b {
        a
    } else {
        b
    }
}

/// The corners of the 3x3 neighborhood of (x1, y1), clamped to the grid:
/// the top-left corner (x0, y0) and the bottom-right corner (x2, y2).
pub open spec fn diagonal_neighbours(x1: u32, y1: u32, width: u32, height: u32) -> (
    (u32, u32),
    (u32, u32),
) {
    (
        (sat_sub_one(x1), sat_sub_one(y1)),
        (min_u32(sat_add_one(x1), sat_sub_one(width)), min_u32(sat_add_one(y1), sat_sub_one(height))),
    )
}

/// Whether the center coordinate coincides with a corner of its clamped
/// neighborhood, which happens exactly on the grid boundary.
pub open spec fn is_on_the_edge(top_left: (u32, u32), center: (u32, u32), bottom_right: (u32, u32)) -> bool {
    center.0 == top_left.0 || center.0 == bottom_right.0 || center.1 == top_left.1 || center.1
        == bottom_right.1
}

/// Clamped corners of the 3x3 neighborhood of (x1, y1) in a width x height
/// grid.
pub fn get_diagonal_neighbours(x1: u32, y1: u32, width: u32, height: u32) -> (r: (
    (u32, u32),
    (u32, u32),
))
    ensures
        r == diagonal_neighbours(x1, y1, width, height),
{
    let x0 = if x1 == 0 { 0 } else { x1 - 1 };
    let y0 = if y1 == 0 { 0 } else { y1 - 1 };
    let xs = if x1 == u32::MAX { u32::MAX } else { x1 + 1 };
    let ys = if y1 == u32::MAX { u32::MAX } else { y1 + 1 };
    let xw = if width == 0 { 0 } else { width - 1 };
    let yh = if height == 0 { 0 } else { height - 1 };
    let x2 = if xs < xw { xs } else { xw };
    let y2 = if ys < yh { ys } else { yh };
    ((x0, y0), (x2, y2))
}

/// Whether the center sits on the boundary of its clamped neighborhood.
pub fn on_the_edge(top_left: (u32, u32), center: (u32, u32), bottom_right: (u32, u32)) -> (r: bool)
    ensures
        r == is_on_the_edge(top_left, center, bottom_right),
{
    center.0 == top_left.0 || center.0 == bottom_right.0 || center.1 == top_left.1 || center.1
        == bottom_right.1
}

/// The x coordinate of the k-th cell of a neighborhood scan that starts at
/// (x0, y0) and walks y fastest through ny rows per column.
pub open spec fn scan_x(x0: int, ny: int, k: int) -> int {
    x0 + k / ny
}

/// The y coordinate of the k-th cell of the same scan.
pub open spec fn scan_y(y0: int, ny: int, k: int) -> int {
    y0 + k % ny
}

/// How many of the first k scanned cells, the center excluded, hold a
/// pixel bit-identical to the one at (cx, cy).
pub open spec fn sibling_count(
    img: Image,
    cx: int,
    cy: int,
    x0: int,
    y0: int,
    ny: int,
    k: int,
) -> int
    decreases k,
{
    if k <= 0 {
        0
    } else {
        let c = sibling_count(img, cx, cy, x0, y0, ny, k - 1);
        let sx = scan_x(x0, ny, k - 1);
        let sy = scan_y(y0, ny, k - 1);
        if sx == cx && sy == cy {
            c
        } else if img.px(sx, sy) == img.px(cx, cy) {
            c + 1
        } else {
            c
        }
    }
}

/// Whether the pixel at (x1, y1) has more than two bit-identical
/// neighbors in its clamped 3x3 neighborhood, a boundary pixel starting
/// the count at zero and an interior pixel at one.
pub open spec fn many_siblings(img: Image, x1: u32, y1: u32, width: u32, height: u32) -> bool {
    let corners = diagonal_neighbours(x1, y1, width, height);
    let x0 = corners.0.0;
    let y0 = corners.0.1;
    let x2 = corners.1.0;
    let y2 = corners.1.1;
    let seed: int = if is_on_the_edge(corners.0, (x1, y1), corners.1) {
        0
    } else {
        1
    };
    let ny = y2 - y0 + 1;
    let total = (x2 - x0 + 1) * ny;
    seed + sibling_count(img, x1 as int, y1 as int, x0 as int, y0 as int, ny, total) > 2
}

/// The running state of the anti-aliasing neighborhood scan: how many
/// neighbors matched the center's luminance exactly, and the single most
/// negative and most positive luminance deltas seen so far with their
/// coordinates.
pub struct AaScan {
    pub zeros: int,
    pub min: int,
    pub min_x: int,
    pub min_y: int,
    pub max: int,
    pub max_x: int,
    pub max_y: int,
}

/// One neighbor's contribution to the scan state: an exact luminance
/// match bumps the zero counter; otherwise the delta can displace the
/// current minimum, or failing that the current maximum.
pub open spec fn aa_step(st: AaScan, delta: int, x: int, y: int) -> AaScan {
    if delta == 0 {
        AaScan { zeros: st.zeros + 1, ..st }
    } else if delta < st.min {
        AaScan { min: delta, min_x: x, min_y: y, ..st }
    } else if delta > st.max {
        AaScan { max: delta, max_x: x, max_y: y, ..st }
    } else {
        st
    }
}

/// The scan state after the first k cells of the neighborhood of
/// (cx, cy), the center itself skipped.
pub open spec fn aa_scan(
    img: Image,
    cx: int,
    cy: int,
    x0: int,
    y0: int,
    ny: int,
    seed: int,
    k: int,
) -> AaScan
    decreases k,
{
    if k <= 0 {
        AaScan { zeros: seed, min: 0, min_x: 0, min_y: 0, max: 0, max_x: 0, max_y: 0 }
    } else {
        let st = aa_scan(img, cx, cy, x0, y0, ny, seed, k - 1);
        let sx = scan_x(x0, ny, k - 1);
        let sy = scan_y(y0, ny, k - 1);
        if sx == cx && sy == cy {
            st
        } else {
            aa_step(
                st,
                luminance_delta(rgb_part(img.px(cx, cy)), rgb_part(img.px(sx, sy))),
                sx,
                sy,
            )
        }
    }
}

/// Whether the color difference at (x1, y1) looks like an anti-aliasing
/// artifact of `img`: the neighborhood shows a genuine luminance gradient
/// with at most two exact matches, and the extreme-delta neighbor has
/// many identical siblings in both `img` and `other`. The extreme
/// neighbors are located in `img` only and then tested in both images.
pub open spec fn antialiased_spec(
    img: Image,
    x1: u32,
    y1: u32,
    width: u32,
    height: u32,
    other: Image,
) -> bool {
    let corners = diagonal_neighbours(x1, y1, width, height);
    let x0 = corners.0.0;
    let y0 = corners.0.1;
    let x2 = corners.1.0;
    let y2 = corners.1.1;
    let seed: int = if is_on_the_edge(corners.0, (x1, y1), corners.1) {
        1
    } else {
        0
    };
    let ny = y2 - y0 + 1;
    let total = (x2 - x0 + 1) * ny;
    let st = aa_scan(img, x1 as int, y1 as int, x0 as int, y0 as int, ny, seed, total);
    if st.zeros > 2 {
        false
    } else if st.min == 0 || st.max == 0 {
        false
    } else {
        (many_siblings(img, st.min_x as u32, st.min_y as u32, width, height) && many_siblings(
            other,
            st.min_x as u32,
            st.min_y as u32,
            width,
            height,
        )) || (many_siblings(img, st.max_x as u32, st.max_y as u32, width, height)
            && many_siblings(other, st.max_x as u32, st.max_y as u32, width, height))
    }
}

/// A scan position inside the rectangle has a flat index below the
/// rectangle's cell count.
#[verifier::nonlinear]
pub proof fn lemma_scan_in_rect(dx: int, dy: int, nx: int, ny: int)
    requires
        0 <= dx < nx,
        0 <= dy < ny,
    ensures
        0 <= dx * ny + dy < nx * ny,
{
}

/// Stepping the scan to the next column advances the flat index by one
/// full column of cells.
#[verifier::nonlinear]
pub proof fn lemma_scan_next_column(a: int, c: int)
    ensures
        (a + 1) * c == a * c + c,
{
}

/// The sibling count never drops as the scan advances.
pub proof fn lemma_sibling_count_monotonic(
    img: Image,
    cx: int,
    cy: int,
    x0: int,
    y0: int,
    ny: int,
    j: int,
    k: int,
)
    requires
        0 <= j <= k,
    ensures
        sibling_count(img, cx, cy, x0, y0, ny, j) <= sibling_count(img, cx, cy, x0, y0, ny, k),
    decreases k - j,
{
    if j < k {
        lemma_sibling_count_monotonic(img, cx, cy, x0, y0, ny, j, k - 1);
    }
}

/// The zero-delta counter of the anti-aliasing scan never drops as the
/// scan advances.
pub proof fn lemma_aa_zeros_monotonic(
    img: Image,
    cx: int,
    cy: int,
    x0: int,
    y0: int,
    ny: int,
    seed: int,
    j: int,
    k: int,
)
    requires
        0 <= j <= k,
    ensures
        aa_scan(img, cx, cy, x0, y0, ny, seed, j).zeros <= aa_scan(
            img,
            cx,
            cy,
            x0,
            y0,
            ny,
            seed,
            k,
        ).zeros,
    decreases k - j,
{
    if j < k {
        lemma_aa_zeros_monotonic(img, cx, cy, x0, y0, ny, seed, j, k - 1);
    }
}

/// Whether the pixel at (x1, y1) has more than two bit-identical
/// neighbors in its clamped 3x3 neighborhood of a width x height grid.
#[verifier::loop_isolation(false)]
pub fn has_many_siblings(image: &Image, x1: u32, y1: u32, width: u32, height: u32) -> (r: bool)
    requires
        image.wf(),
        x1 < width,
        y1 < height,
        width <= image.spec_width(),
        height <= image.spec_height(),
    ensures
        r == many_siblings(*image, x1, y1, width, height),
{
    let ((x0, y0), (x2, y2)) = get_diagonal_neighbours(x1, y1, width, height);
    let mut zeros: u32 = if on_the_edge((x0, y0), (x1, y1), (x2, y2)) {
        0
    } else {
        1
    };
    let ghost seed: int = zeros as int;
    let center = image.get_pixel(x1, y1);
    let ny: u32 = y2 - y0 + 1;
    let ghost total: int = (x2 - x0 + 1) * ny;

    let mut x: u32 = x0;
    let mut y: u32 = y0;
    let ghost mut k: int = 0;
    while x <= x2
        invariant
            x0 <= x <= x2 + 1,
            y0 <= y <= y2,
            x == x2 + 1 ==> y == y0,
            k == (x - x0) * ny + (y - y0),
            zeros == seed + sibling_count(
                *image,
                x1 as int,
                y1 as int,
                x0 as int,
                y0 as int,
                ny as int,
                k,
            ),
            zeros <= 2,
        decreases x2 + 1 - x, y2 + 1 - y,
    {
        proof {
            lemma_fundamental_div_mod_converse(k, ny as int, (x - x0) as int, (y - y0) as int);
            lemma_scan_in_rect((x - x0) as int, (y - y0) as int, (x2 - x0 + 1) as int, ny as int);
            assert(k < total);
        }
        if !(x == x1 && y == y1) {
            if center == image.get_pixel(x, y) {
                zeros = zeros + 1;
            }
            if zeros > 2 {
                proof {
                    lemma_sibling_count_monotonic(
                        *image,
                        x1 as int,
                        y1 as int,
                        x0 as int,
                        y0 as int,
                        ny as int,
                        k + 1,
                        total,
                    );
                }
                return true;
            }
        }
        proof {
            k = k + 1;
        }
        if y < y2 {
            y = y + 1;
        } else {
            proof {
                lemma_scan_next_column((x - x0) as int, ny as int);
            }
            y = y0;
            x = x + 1;
        }
    }
    false
}

/// Whether the color difference at (x1, y1) of `left` against `right`
/// looks like an anti-aliasing artifact rather than a content change.
#[verifier::loop_isolation(false)]
#[verifier::rlimit(60)]
pub fn antialiased(
    left: &Image,
    x1: u32,
    y1: u32,
    width: u32,
    height: u32,
    right: &Image,
) -> (r: bool)
    requires
        left.wf(),
        right.wf(),
        x1 < width,
        y1 < height,
        width <= left.spec_width(),
        height <= left.spec_height(),
        width <= right.spec_width(),
        height <= right.spec_height(),
    ensures
        r == antialiased_spec(*left, x1, y1, width, height, *right),
{
    let ((x0, y0), (x2, y2)) = get_diagonal_neighbours(x1, y1, width, height);
    let mut zeros: u32 = if on_the_edge((x0, y0), (x1, y1), (x2, y2)) {
        1
    } else {
        0
    };
    let ghost seed: int = zeros as int;

    let mut min: i64 = 0;
    let mut max: i64 = 0;
    let mut min_x: u32 = 0;
    let mut min_y: u32 = 0;
    let mut max_x: u32 = 0;
    let mut max_y: u32 = 0;

    let center = left.get_pixel(x1, y1).to_rgb();
    let ny: u32 = y2 - y0 + 1;
    let ghost total: int = (x2 - x0 + 1) * ny;
    let ghost st0 = aa_scan(
        *left,
        x1 as int,
        y1 as int,
        x0 as int,
        y0 as int,
        ny as int,
        seed,
        total,
    );

    let mut x: u32 = x0;
    let mut y: u32 = y0;
    let ghost mut k: int = 0;
    while x <= x2
        invariant
            x0 <= x <= x2 + 1,
            y0 <= y <= y2,
            x == x2 + 1 ==> y == y0,
            k == (x - x0) * ny + (y - y0),
            aa_scan(*left, x1 as int, y1 as int, x0 as int, y0 as int, ny as int, seed, k)
                == (AaScan {
                zeros: zeros as int,
                min: min as int,
                min_x: min_x as int,
                min_y: min_y as int,
                max: max as int,
                max_x: max_x as int,
                max_y: max_y as int,
            }),
            zeros <= 2,
            min <= 0,
            max >= 0,
            min != 0 ==> x0 <= min_x <= x2 && y0 <= min_y <= y2,
            max != 0 ==> x0 <= max_x <= x2 && y0 <= max_y <= y2,
        decreases x2 + 1 - x, y2 + 1 - y,
    {
        proof {
            lemma_fundamental_div_mod_converse(k, ny as int, (x - x0) as int, (y - y0) as int);
            lemma_scan_in_rect((x - x0) as int, (y - y0) as int, (x2 - x0 + 1) as int, ny as int);
            assert(k < total);
        }
        if !(x == x1 && y == y1) {
            let neighbor = left.get_pixel(x, y).to_rgb();
            let delta = Yiq::delta_y(&center, &neighbor);

            if delta == 0 {
                zeros = zeros + 1;
                if zeros > 2 {
                    proof {
                        lemma_aa_zeros_monotonic(
                            *left,
                            x1 as int,
                            y1 as int,
                            x0 as int,
                            y0 as int,
                            ny as int,
                            seed,
                            k + 1,
                            total,
                        );
                    }
                    return false;
                }
            } else if delta < min {
                min = delta;
                min_x = x;
                min_y = y;
            } else if delta > max {
                max = delta;
                max_x = x;
                max_y = y;
            }
        }
        proof {
            k = k + 1;
        }
        if y < y2 {
            y = y + 1;
        } else {
            proof {
                lemma_scan_next_column((x - x0) as int, ny as int);
            }
            y = y0;
            x = x + 1;
        }
    }

    if min == 0 || max == 0 {
        return false;
    }

    (has_many_siblings(left, min_x, min_y, width, height) && has_many_siblings(
        right,
        min_x,
        min_y,
        width,
        height,
    )) || (has_many_siblings(left, max_x, max_y, width, height) && has_many_siblings(
        right,
        max_x,
        max_y,
        width,
        height,
    ))
}

/// Fixed-point scale of caller-supplied unit-interval fractions (the
/// matching threshold and the blend factor): 10^6 units stand for 1.0.
pub const UNIT_SCALE: u32 = 1_000_000;

/// Common denominator of the blend computation: luminance is in
/// `COLOR_SCALE` units, the blend factor in `UNIT_SCALE` units, and the
/// pixel's alpha channel in 255ths.
pub const BLEND_DENOMINATOR: i128 = 100_000_000 * 255 * 1_000_000;

/// Blending a luminance toward white: the result moves from the color
/// (fraction 1) to pure white 255 (fraction 0), where the fraction is
/// `blend * alpha` in `UNIT_SCALE * 255` units. Inputs are in
/// `COLOR_SCALE` units; the result is an 8-bit channel value, the exact
/// rational truncated toward zero.
pub open spec fn blend_white_value(color: int, blend: int, alpha: int) -> int {
    (255 * (BLEND_DENOMINATOR as int) + (color - 255 * COLOR_SCALE) * blend * alpha) / (
    BLEND_DENOMINATOR as int)
}

/// Blends an unchanged pixel's luminance toward opaque white by the
/// complement of `blend * alpha / 255`. `color` is a luminance in
/// `COLOR_SCALE` units, `blend` a fraction in `UNIT_SCALE` units, and
/// `alpha` the pixel's own alpha channel.
pub fn blend_semi_transparent_white(color: i64, blend: u32, alpha: u8) -> (c: u8)
    requires
        0 <= color <= 255 * (Y_FROM_R + Y_FROM_G + Y_FROM_B),
        blend <= UNIT_SCALE,
    ensures
        c as int == blend_white_value(color as int, blend as int, alpha as int),
{
    let base: i128 = color as i128 - 25_500_000_000;
    assert(-25_500_000_000 <= base <= 255);
    assert(-25_500_000_000_000_000 <= (base as int) * (blend as int) <= 255_000_000)
        by (nonlinear_arith)
        requires
            -25_500_000_000 <= base <= 255,
            0 <= blend <= 1_000_000,
    ;
    let weighted: i128 = base * (blend as i128);
    assert(-6_502_500_000_000_000_000 <= (weighted as int) * (alpha as int) <= 65_025_000_000)
        by (nonlinear_arith)
        requires
            -25_500_000_000_000_000 <= weighted <= 255_000_000,
            0 <= alpha <= 255,
    ;
    let offset: i128 = weighted * (alpha as i128);
    let numerator: i128 = 6_502_500_000_000_000_000 + offset;
    assert(0 <= numerator < 256 * 25_500_000_000_000_000);
    let quotient: i128 = numerator / 25_500_000_000_000_000;
    proof {
        vstd::arithmetic::div_mod::lemma_div_pos_is_pos(
            numerator as int,
            25_500_000_000_000_000,
        );
        assert((numerator as int) < 25_500_000_000_000_000 * 256);
        vstd::arithmetic::div_mod::lemma_multiply_divide_lt(
            numerator as int,
            25_500_000_000_000_000,
            256,
        );
        assert(0 <= quotient < 256);
    }
    quotient as u8
}

/// A full blend factor on a fully opaque pixel leaves the luminance as
/// it is, merely truncated to the 8-bit channel range.
pub proof fn lemma_full_blend_preserves_color(color: int)
    requires
        0 <= color,
    ensures
        blend_white_value(color, UNIT_SCALE as int, 255) == color / (COLOR_SCALE as int),
{
    let numerator = 255 * (BLEND_DENOMINATOR as int) + (color - 255 * COLOR_SCALE) * (
    UNIT_SCALE as int) * 255;
    assert(numerator == 255_000_000 * color);
    vstd::arithmetic::div_mod::lemma_div_denominator(numerator, 255_000_000, 100_000_000);
    vstd::arithmetic::div_mod::lemma_div_multiples_vanish(color, 255_000_000);
    assert((255_000_000 * color) / 255_000_000 == color);
    assert(blend_white_value(color, UNIT_SCALE as int, 255) == color / 100_000_000);
}

/// A zero blend fraction, or a fully transparent pixel, turns the
/// output pixel pure white, whatever its luminance was.
pub proof fn lemma_zero_blend_whitens(color: int, blend: int, alpha: int)
    requires
        blend == 0 || alpha == 0,
    ensures
        blend_white_value(color, blend, alpha) == 255,
{
    if blend == 0 {
        assert((color - 255 * COLOR_SCALE) * blend == 0);
        assert((color - 255 * COLOR_SCALE) * blend * alpha == 0);
    } else {
        assert((color - 255 * COLOR_SCALE) * blend * alpha == 0);
    }
    vstd::arithmetic::div_mod::lemma_div_multiples_vanish(255, BLEND_DENOMINATOR as int);
    assert((BLEND_DENOMINATOR as int) * 255 == 255 * (BLEND_DENOMINATOR as int));
}

} // verus!
