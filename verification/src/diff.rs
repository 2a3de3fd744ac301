//! The comparison engine: per-pixel classification of a left image
//! against a right image, and the compositing of a diff image plus a
//! difference count from the classifications.

use vstd::prelude::*;

verus! {

use crate::antialiased;
use crate::antialiased_spec;
use crate::UNIT_SCALE;
use crate::blend_semi_transparent_white;
use crate::blend_white_value;
use crate::cli::BlockOutArea;
use crate::cli::OutputImageBase;
use crate::cli::blocked_out;
use crate::cli::is_blocked_out;
use crate::img::Image;
use crate::img::Rgba;
use crate::img::lemma_row_major_index_bounds;
use crate::img::lemma_row_major_index_injective;
use crate::img::rgb_part;
use crate::img::transparent_pixel;
use crate::yiq::Yiq;
use crate::yiq::luminance;
use crate::yiq::squared_distance_value;
use crate::yiq::yiq_of;
use vstd::arithmetic::div_mod::lemma_fundamental_div_mod_converse;
use vstd::math::abs;

/// The largest squared distance the metric can produce for two 8-bit
/// colors, in the metric's own channel-squared units.
pub const MAX_YIQ_POSSIBLE_DELTA: u128 = 35_215;

/// How many fixed-point units a squared distance carries per
/// channel-squared unit: `COLOR_SCALE^2 * WEIGHT_SCALE`.
pub const DISTANCE_SCALE: u128 = 100_000_000 * 100_000_000 * 10_000;

/// The classification of one coordinate of the left image's grid.
#[derive(PartialEq, Eq, Structural, Clone, Copy, Debug)]
pub enum DiffResult {
    Identical(u32, u32),
    BelowThreshold(u32, u32),
    Different(u32, u32),
    OutOfBounds(u32, u32),
    AntiAliased(u32, u32),
}

/// The unit-interval threshold converted into the metric's fixed-point
/// squared-distance units: `MAX_YIQ_POSSIBLE_DELTA * threshold^2`,
/// truncated to a whole number of fixed-point units.
pub open spec fn scaled_threshold(threshold: int) -> int {
    ((MAX_YIQ_POSSIBLE_DELTA * DISTANCE_SCALE) as int) * threshold * threshold / ((UNIT_SCALE
        * UNIT_SCALE) as int)
}

/// Converts a threshold in `UNIT_SCALE` units of the interval [0, 1]
/// into the metric's fixed-point squared-distance units.
pub fn scale_threshold(threshold: u32) -> (r: u128)
    requires
        threshold <= UNIT_SCALE,
    ensures
        r == scaled_threshold(threshold as int),
{
    let t: u128 = threshold as u128;
    let scale_product: u128 = MAX_YIQ_POSSIBLE_DELTA * DISTANCE_SCALE;
    assert(scale_product == 3_521_500_000_000_000_000_000_000);
    let weighted: u128 = scale_product * t;
    assert(weighted <= 3_521_500_000_000_000_000_000_000_000_000);
    assert(weighted * t <= 3_521_500_000_000_000_000_000_000_000_000 * 1_000_000)
        by (nonlinear_arith)
        requires
            weighted <= 3_521_500_000_000_000_000_000_000_000_000,
            t <= 1_000_000,
    ;
    let squared: u128 = weighted * t;
    let denominator: u128 = 1_000_000_000_000;
    assert(denominator == ((UNIT_SCALE * UNIT_SCALE) as int));
    squared / denominator
}

/// The class of the coordinate (x, y): outside the right image it is out
/// of bounds; bit-identical pixels are identical; otherwise the
/// perceptual distance decides, with the anti-aliasing heuristic
/// consulted, in both directions, for pixels over the threshold.
pub open spec fn classification(
    left: Image,
    right: Image,
    threshold: int,
    detect_aa: bool,
    x: u32,
    y: u32,
) -> DiffResult {
    if !right.has_pixel(x as int, y as int) {
        DiffResult::OutOfBounds(x, y)
    } else if left.px(x as int, y as int) == right.px(x as int, y as int) {
        DiffResult::Identical(x, y)
    } else {
        let delta = squared_distance_value(
            yiq_of(rgb_part(left.px(x as int, y as int))),
            yiq_of(rgb_part(right.px(x as int, y as int))),
        );
        if abs(delta) > threshold {
            if detect_aa && (antialiased_spec(
                left,
                x,
                y,
                left.spec_width(),
                left.spec_height(),
                right,
            ) || antialiased_spec(right, x, y, left.spec_width(), left.spec_height(), left)) {
                DiffResult::AntiAliased(x, y)
            } else {
                DiffResult::Different(x, y)
            }
        } else {
            DiffResult::BelowThreshold(x, y)
        }
    }
}

/// Classifies the coordinate (x, y) of the left image's grid.
pub fn classify(
    left: &Image,
    right: &Image,
    threshold: u128,
    detect_anti_aliased_pixels: bool,
    x: u32,
    y: u32,
) -> (r: DiffResult)
    requires
        left.wf(),
        right.wf(),
        x < left.spec_width(),
        y < left.spec_height(),
        detect_anti_aliased_pixels ==> left.spec_width() <= right.spec_width()
            && left.spec_height() <= right.spec_height(),
    ensures
        r == classification(
            *left,
            *right,
            threshold as int,
            detect_anti_aliased_pixels,
            x,
            y,
        ),
{
    if !right.in_bounds(x, y) {
        return DiffResult::OutOfBounds(x, y);
    }
    let left_pixel = left.get_pixel(x, y);
    let right_pixel = right.get_pixel(x, y);
    if left_pixel == right_pixel {
        return DiffResult::Identical(x, y);
    }
    let left_value = Yiq::from_rgba(&left_pixel);
    let right_value = Yiq::from_rgba(&right_pixel);
    let delta = left_value.squared_distance(&right_value);
    let magnitude: u128 = if delta < 0 {
        (-delta) as u128
    } else {
        delta as u128
    };
    assert(magnitude == abs(delta as int));
    if magnitude > threshold {
        let width = left.width();
        let height = left.height();
        if detect_anti_aliased_pixels && (antialiased(left, x, y, width, height, right)
            || antialiased(right, x, y, width, height, left)) {
            DiffResult::AntiAliased(x, y)
        } else {
            DiffResult::Different(x, y)
        }
    } else {
        DiffResult::BelowThreshold(x, y)
    }
}

/// The opaque red marker painted on genuine differences.
pub open spec fn red_pixel() -> Rgba {
    Rgba { r: 255, g: 0, b: 0, a: 255 }
}

/// The opaque yellow marker painted on suppressed anti-aliasing
/// artifacts.
pub open spec fn yellow_pixel() -> Rgba {
    Rgba { r: 255, g: 255, b: 0, a: 255 }
}

/// The classes that count as differences: genuine content changes and
/// coordinates outside the right image.
pub open spec fn is_difference(r: DiffResult) -> bool {
    r is Different || r is OutOfBounds
}

/// The classes treated as unchanged by the compositor.
pub open spec fn is_unchanged(r: DiffResult) -> bool {
    r is Identical || r is BelowThreshold
}

/// Whether (x, y) contributes to the diff count: it must classify as a
/// difference and not be masked by a block-out rectangle.
pub open spec fn counts_as_diff(
    left: Image,
    right: Image,
    threshold: int,
    detect_aa: bool,
    areas: Seq<BlockOutArea>,
    x: u32,
    y: u32,
) -> bool {
    is_difference(classification(left, right, threshold, detect_aa, x, y)) && !blocked_out(
        areas,
        x as int,
        y as int,
    )
}

/// The diff count over the first n coordinates of the left image's
/// row-major scan (x varies fastest).
pub open spec fn diff_count_prefix(
    left: Image,
    right: Image,
    threshold: int,
    detect_aa: bool,
    areas: Seq<BlockOutArea>,
    n: int,
) -> int
    decreases n,
{
    if n <= 0 {
        0
    } else {
        let w = left.spec_width() as int;
        let x = (n - 1) % w;
        let y = (n - 1) / w;
        diff_count_prefix(left, right, threshold, detect_aa, areas, n - 1) + if counts_as_diff(
            left,
            right,
            threshold,
            detect_aa,
            areas,
            x as u32,
            y as u32,
        ) {
            1int
        } else {
            0int
        }
    }
}

/// The diff count over the left image's whole grid.
pub open spec fn total_diffs(
    left: Image,
    right: Image,
    threshold: int,
    detect_aa: bool,
    areas: Seq<BlockOutArea>,
) -> int {
    diff_count_prefix(
        left,
        right,
        threshold,
        detect_aa,
        areas,
        left.spec_width() * left.spec_height(),
    )
}

/// The width of the diff image's buffer: the right image's only when it
/// was chosen as the base, else the left image's.
pub open spec fn base_width(left: Image, right: Image, base: Option<OutputImageBase>) -> u32 {
    match base {
        Option::Some(OutputImageBase::RightImage) => right.spec_width(),
        _ => left.spec_width(),
    }
}

/// The height of the diff image's buffer.
pub open spec fn base_height(left: Image, right: Image, base: Option<OutputImageBase>) -> u32 {
    match base {
        Option::Some(OutputImageBase::RightImage) => right.spec_height(),
        _ => left.spec_height(),
    }
}

/// The pixel the diff image starts from at (x, y): fully transparent on
/// a blank canvas, else the chosen source image's pixel.
pub open spec fn base_pixel(
    left: Image,
    right: Image,
    base: Option<OutputImageBase>,
    x: int,
    y: int,
) -> Rgba {
    match base {
        Option::None => transparent_pixel(),
        Option::Some(OutputImageBase::LeftImage) => left.px(x, y),
        Option::Some(OutputImageBase::RightImage) => right.px(x, y),
    }
}

/// What an unchanged or masked coordinate gets painted with: the base
/// pixel when no blend factor is set, else the left pixel's luminance
/// blended toward opaque white, scaled by the pixel's own alpha.
pub open spec fn unchanged_pixel_paint(
    left: Image,
    base_px: Rgba,
    blend: Option<u32>,
    x: u32,
    y: u32,
) -> Rgba {
    match blend {
        Option::None => base_px,
        Option::Some(b) => {
            let p = left.px(x as int, y as int);
            let c = blend_white_value(luminance(rgb_part(p)), b as int, p.a as int);
            Rgba { r: c as u8, g: c as u8, b: c as u8, a: 255 }
        },
    }
}

/// The diff image's final pixel at a coordinate of the left image's
/// grid: masked or unchanged coordinates get the unchanged-pixel
/// policy, differences the red marker, anti-aliasing artifacts the
/// yellow marker.
pub open spec fn composed_pixel(
    left: Image,
    right: Image,
    threshold: int,
    detect_aa: bool,
    blend: Option<u32>,
    areas: Seq<BlockOutArea>,
    base: Option<OutputImageBase>,
    x: u32,
    y: u32,
) -> Rgba {
    let cls = classification(left, right, threshold, detect_aa, x, y);
    let bp = base_pixel(left, right, base, x as int, y as int);
    if blocked_out(areas, x as int, y as int) || is_unchanged(cls) {
        unchanged_pixel_paint(left, bp, blend, x, y)
    } else if is_difference(cls) {
        red_pixel()
    } else {
        yellow_pixel()
    }
}

/// What `get_results` promises of its result: no output exactly when
/// there is nothing to show, and otherwise the exact diff count and the
/// full contents of the diff image.
pub open spec fn results_match(
    left: Image,
    right: Image,
    threshold: int,
    detect_aa: bool,
    blend: Option<u32>,
    base: Option<OutputImageBase>,
    areas: Seq<BlockOutArea>,
    r: Option<(i32, Image)>,
) -> bool {
    let n = total_diffs(left, right, threshold, detect_aa, areas);
    match r {
        Option::None => n == 0 && blend is None,
        Option::Some((diffs, out)) => {
            &&& n > 0 || blend is Some
            &&& diffs as int == n
            &&& out.wf()
            &&& out.spec_width() == base_width(left, right, base)
            &&& out.spec_height() == base_height(left, right, base)
            &&& forall|x: u32, y: u32|
                left.has_pixel(x as int, y as int) ==> #[trigger] out.px(x as int, y as int)
                    == composed_pixel(left, right, threshold, detect_aa, blend, areas, base, x, y)
            &&& forall|x: int, y: int|
                out.has_pixel(x, y) && !left.has_pixel(x, y) ==> #[trigger] out.px(x, y)
                    == base_pixel(left, right, base, x, y)
        },
    }
}

/// Classifies every coordinate of the left image's grid and composes
/// the diff image and the diff count. The result is `None` exactly when
/// the count is zero and no blend factor asks for an output anyway.
#[verifier::loop_isolation(false)]
#[verifier::rlimit(100)]
pub fn get_results(
    left_image: &Image,
    right_image: &Image,
    threshold: u128,
    detect_anti_aliased_pixels: bool,
    blend_factor_of_unchanged_pixels: Option<u32>,
    output_image_base: &Option<OutputImageBase>,
    block_out_areas: &Vec<BlockOutArea>,
) -> (r: Option<(i32, Image)>)
    requires
        left_image.wf(),
        right_image.wf(),
        left_image.spec_width() * left_image.spec_height() <= i32::MAX as int,
        detect_anti_aliased_pixels ==> left_image.spec_width() <= right_image.spec_width()
            && left_image.spec_height() <= right_image.spec_height(),
        *output_image_base == Option::Some(OutputImageBase::RightImage)
            ==> left_image.spec_width() <= right_image.spec_width() && left_image.spec_height()
            <= right_image.spec_height(),
        blend_factor_of_unchanged_pixels matches Option::Some(b) ==> b <= UNIT_SCALE,
    ensures
        results_match(
            *left_image,
            *right_image,
            threshold as int,
            detect_anti_aliased_pixels,
            blend_factor_of_unchanged_pixels,
            *output_image_base,
            block_out_areas@,
            r,
        ),
{
    let width = left_image.width();
    let height = left_image.height();

    let mut output_image: Image = match output_image_base {
        Option::Some(OutputImageBase::LeftImage) => left_image.duplicate(),
        Option::Some(OutputImageBase::RightImage) => right_image.duplicate(),
        Option::None => Image::new(width, height),
    };

    let mut diffs: i32 = 0;
    let mut x: u32 = 0;
    let mut y: u32 = 0;
    let ghost mut k: int = 0;

    if width > 0 {
        while y < height
            invariant
                0 <= x < width,
                0 <= y <= height,
                y == height ==> x == 0,
                k == (y as int) * (width as int) + (x as int),
                0 <= diffs <= k,
                diffs == diff_count_prefix(
                    *left_image,
                    *right_image,
                    threshold as int,
                    detect_anti_aliased_pixels,
                    block_out_areas@,
                    k,
                ),
                output_image.wf(),
                output_image.spec_width() == base_width(
                    *left_image,
                    *right_image,
                    *output_image_base,
                ),
                output_image.spec_height() == base_height(
                    *left_image,
                    *right_image,
                    *output_image_base,
                ),
                forall|xx: u32, yy: u32|
                    left_image.has_pixel(xx as int, yy as int) ==> #[trigger] output_image.px(
                        xx as int,
                        yy as int,
                    ) == (if (yy as int) * (width as int) + (xx as int) < k {
                        composed_pixel(
                            *left_image,
                            *right_image,
                            threshold as int,
                            detect_anti_aliased_pixels,
                            blend_factor_of_unchanged_pixels,
                            block_out_areas@,
                            *output_image_base,
                            xx,
                            yy,
                        )
                    } else {
                        base_pixel(*left_image, *right_image, *output_image_base, xx as int, yy as int)
                    }),
                forall|xx: int, yy: int|
                    output_image.has_pixel(xx, yy) && !left_image.has_pixel(xx, yy)
                        ==> #[trigger] output_image.px(xx, yy) == base_pixel(
                        *left_image,
                        *right_image,
                        *output_image_base,
                        xx,
                        yy,
                    ),
            decreases height - y, width - x,
        {
            proof {
                lemma_row_major_index_bounds(
                    x as int,
                    y as int,
                    width as int,
                    height as int,
                );
                lemma_fundamental_div_mod_converse(k, width as int, y as int, x as int);
            }
            let cls = classify(
                left_image,
                right_image,
                threshold,
                detect_anti_aliased_pixels,
                x,
                y,
            );
            let blocked_here = is_blocked_out(block_out_areas, x, y);
            let unchanged = matches!(
                cls,
                DiffResult::Identical(_, _) | DiffResult::BelowThreshold(_, _)
            );
            if blocked_here || unchanged {
                if let Option::Some(blend) = blend_factor_of_unchanged_pixels {
                    let left_pixel = left_image.get_pixel(x, y);
                    let color = blend_semi_transparent_white(
                        Yiq::rgb2y(&left_pixel.to_rgb()),
                        blend,
                        left_pixel.a,
                    );
                    output_image.put_pixel(x, y, Rgba { r: color, g: color, b: color, a: 255 });
                }
            } else if matches!(cls, DiffResult::Different(_, _) | DiffResult::OutOfBounds(_, _)) {
                output_image.put_pixel(x, y, Rgba { r: 255, g: 0, b: 0, a: 255 });
                diffs = diffs + 1;
            } else {
                output_image.put_pixel(x, y, Rgba { r: 255, g: 255, b: 0, a: 255 });
            }
            proof {
                k = k + 1;
                assert forall|xx: u32, yy: u32|
                    left_image.has_pixel(xx as int, yy as int) && !(xx == x && yy == y)
                        implies (yy as int) * (width as int) + (xx as int) != k - 1 by {
                    lemma_row_major_index_injective(
                        xx as int,
                        yy as int,
                        x as int,
                        y as int,
                        width as int,
                    );
                }
            }
            x = x + 1;
            if x == width {
                x = 0;
                y = y + 1;
                proof {
                    crate::lemma_scan_next_column(y as int - 1, width as int);
                }
            }
        }
    }

    proof {
        if width == 0 {
            assert((width as int) * (height as int) == 0) by (nonlinear_arith)
                requires
                    width == 0,
            ;
        } else {
            assert((y as int) * (width as int) == (width as int) * (height as int))
                by (nonlinear_arith)
                requires
                    y == height,
            ;
        }
        assert(k == left_image.spec_width() * left_image.spec_height());
    }

    if diffs > 0 || blend_factor_of_unchanged_pixels.is_some() {
        proof {
            assert forall|xx: u32, yy: u32| left_image.has_pixel(xx as int, yy as int)
                implies (yy as int) * (width as int) + (xx as int) < k by {
                lemma_row_major_index_bounds(xx as int, yy as int, width as int, height as int);
            }
        }
        Option::Some((diffs, output_image))
    } else {
        Option::None
    }
}

/// Why a comparison run failed before any pixel was classified.
#[derive(PartialEq, Eq, Structural, Clone, Copy, Debug)]
pub enum DiffError {
    /// The threshold lies outside the unit interval.
    InvalidThreshold,
    /// The blend factor lies outside the unit interval.
    InvalidAlpha,
    /// The two images differ in size and the dimension check is on.
    DimensionMismatch {
        left_width: u32,
        left_height: u32,
        right_width: u32,
        right_height: u32,
    },
}

/// One comparison run's configuration. The threshold and the blend
/// factor are unit-interval fractions in `UNIT_SCALE` units.
pub struct RunParams {
    pub threshold: u32,
    pub output_image_base: Option<OutputImageBase>,
    pub do_not_check_dimensions: bool,
    pub detect_anti_aliased_pixels: bool,
    pub blend_factor_of_unchanged_pixels: Option<u32>,
    pub block_out_areas: Vec<BlockOutArea>,
}

/// Whether the two images have exactly the same size.
pub open spec fn same_dimensions(left: Image, right: Image) -> bool {
    left.spec_width() == right.spec_width() && left.spec_height() == right.spec_height()
}

/// Validates the configuration, checks the dimensions unless told not
/// to, scales the threshold, and runs the comparison.
pub fn compare(left_image: &Image, right_image: &Image, params: &RunParams) -> (r: Result<
    Option<(i32, Image)>,
    DiffError,
>)
    requires
        left_image.wf(),
        right_image.wf(),
        left_image.spec_width() * left_image.spec_height() <= i32::MAX as int,
        params.do_not_check_dimensions && (params.detect_anti_aliased_pixels
            || params.output_image_base == Option::Some(OutputImageBase::RightImage))
            ==> left_image.spec_width() <= right_image.spec_width() && left_image.spec_height()
            <= right_image.spec_height(),
    ensures
        params.threshold > UNIT_SCALE ==> r == Result::<
            Option<(i32, Image)>,
            DiffError,
        >::Err(DiffError::InvalidThreshold),
        params.threshold <= UNIT_SCALE && (params.blend_factor_of_unchanged_pixels matches Option::Some(b)
            && b > UNIT_SCALE) ==> r == Result::<
            Option<(i32, Image)>,
            DiffError,
        >::Err(DiffError::InvalidAlpha),
        params.threshold <= UNIT_SCALE && (params.blend_factor_of_unchanged_pixels matches Option::Some(b)
            ==> b <= UNIT_SCALE) && !params.do_not_check_dimensions && !same_dimensions(
            *left_image,
            *right_image,
        ) ==> r == Result::<Option<(i32, Image)>, DiffError>::Err(
            DiffError::DimensionMismatch {
                left_width: left_image.spec_width(),
                left_height: left_image.spec_height(),
                right_width: right_image.spec_width(),
                right_height: right_image.spec_height(),
            },
        ),
        params.threshold <= UNIT_SCALE && (params.blend_factor_of_unchanged_pixels matches Option::Some(b)
            ==> b <= UNIT_SCALE) && (params.do_not_check_dimensions || same_dimensions(
            *left_image,
            *right_image,
        )) ==> (r matches Result::Ok(res) && results_match(
            *left_image,
            *right_image,
            scaled_threshold(params.threshold as int),
            params.detect_anti_aliased_pixels,
            params.blend_factor_of_unchanged_pixels,
            params.output_image_base,
            params.block_out_areas@,
            res,
        )),
{
    if params.threshold > UNIT_SCALE {
        return Result::Err(DiffError::InvalidThreshold);
    }
    if let Option::Some(blend) = params.blend_factor_of_unchanged_pixels {
        if blend > UNIT_SCALE {
            return Result::Err(DiffError::InvalidAlpha);
        }
    }

    let left_width = left_image.width();
    let left_height = left_image.height();
    let right_width = right_image.width();
    let right_height = right_image.height();
    if !params.do_not_check_dimensions && (left_width != right_width || left_height
        != right_height) {
        return Result::Err(
            DiffError::DimensionMismatch {
                left_width,
                left_height,
                right_width,
                right_height,
            },
        );
    }

    let threshold = scale_threshold(params.threshold);
    Result::Ok(
        get_results(
            left_image,
            right_image,
            threshold,
            params.detect_anti_aliased_pixels,
            params.blend_factor_of_unchanged_pixels,
            &params.output_image_base,
            &params.block_out_areas,
        ),
    )
}

/// Two coordinates with bit-identical raw pixel values classify as
/// `Identical`, whatever the threshold and whether or not anti-aliasing
/// detection is on.
pub proof fn lemma_identical_pixels_classify_identical(
    left: Image,
    right: Image,
    threshold: int,
    detect_aa: bool,
    x: u32,
    y: u32,
)
    requires
        right.has_pixel(x as int, y as int),
        left.px(x as int, y as int) == right.px(x as int, y as int),
    ensures
        classification(left, right, threshold, detect_aa, x, y) == DiffResult::Identical(x, y),
{
}

/// Comparing an image against itself with a positive threshold
/// classifies every coordinate as `Identical` and yields a diff count
/// of zero, whatever the block-out set and the anti-aliasing setting.
pub proof fn lemma_self_comparison_yields_no_diffs(
    img: Image,
    threshold: int,
    detect_aa: bool,
    areas: Seq<BlockOutArea>,
)
    requires
        threshold > 0,
    ensures
        forall|x: u32, y: u32|
            img.has_pixel(x as int, y as int) ==> classification(img, img, threshold, detect_aa, x, y)
                == DiffResult::Identical(x, y),
        total_diffs(img, img, threshold, detect_aa, areas) == 0,
{
    lemma_self_comparison_prefix_empty(
        img,
        threshold,
        detect_aa,
        areas,
        img.spec_width() * img.spec_height(),
    );
}

/// A scan index inside the grid names a coordinate inside the grid.
proof fn lemma_scan_coordinate_in_grid(width: int, height: int, n: int)
    requires
        0 <= width,
        0 <= height,
        0 < n <= width * height,
    ensures
        width > 0,
        0 <= (n - 1) % width < width,
        0 <= (n - 1) / width < height,
{
    if width <= 0 {
        assert(width * height <= 0) by (nonlinear_arith)
            requires
                width <= 0,
                0 <= height,
        ;
    }
    vstd::arithmetic::div_mod::lemma_mod_division_less_than_divisor(n - 1, width);
    vstd::arithmetic::div_mod::lemma_div_pos_is_pos(n - 1, width);
    vstd::arithmetic::div_mod::lemma_multiply_divide_lt(n - 1, width, height);
}

/// No prefix of a self-comparison's scan contributes a difference.
proof fn lemma_self_comparison_prefix_empty(
    img: Image,
    threshold: int,
    detect_aa: bool,
    areas: Seq<BlockOutArea>,
    n: int,
)
    requires
        n <= img.spec_width() * img.spec_height(),
    ensures
        diff_count_prefix(img, img, threshold, detect_aa, areas, n) == 0,
    decreases n,
{
    if n > 0 {
        lemma_scan_coordinate_in_grid(img.spec_width() as int, img.spec_height() as int, n);
        lemma_self_comparison_prefix_empty(img, threshold, detect_aa, areas, n - 1);
    }
}

/// Raising the threshold never turns a `BelowThreshold` coordinate into
/// anything else: the perceptual distance does not move, only the
/// cutoff does.
pub proof fn lemma_raising_threshold_keeps_below_threshold(
    left: Image,
    right: Image,
    lower: int,
    higher: int,
    detect_aa: bool,
    x: u32,
    y: u32,
)
    requires
        lower <= higher,
        classification(left, right, lower, detect_aa, x, y) == DiffResult::BelowThreshold(x, y),
    ensures
        classification(left, right, higher, detect_aa, x, y) == DiffResult::BelowThreshold(x, y),
{
}

/// A coordinate masked by a block-out rectangle never counts as a
/// difference, whatever it classifies as.
pub proof fn lemma_blocked_out_never_counts(
    left: Image,
    right: Image,
    threshold: int,
    detect_aa: bool,
    areas: Seq<BlockOutArea>,
    x: u32,
    y: u32,
)
    requires
        blocked_out(areas, x as int, y as int),
    ensures
        !counts_as_diff(left, right, threshold, detect_aa, areas, x, y),
{
}

/// A scan step over a masked coordinate leaves the running diff count
/// as it was.
pub proof fn lemma_blocked_out_step_adds_nothing(
    left: Image,
    right: Image,
    threshold: int,
    detect_aa: bool,
    areas: Seq<BlockOutArea>,
    n: int,
)
    requires
        0 < n <= left.spec_width() * left.spec_height(),
        blocked_out(
            areas,
            (n - 1) % (left.spec_width() as int),
            (n - 1) / (left.spec_width() as int),
        ),
    ensures
        diff_count_prefix(left, right, threshold, detect_aa, areas, n) == diff_count_prefix(
            left,
            right,
            threshold,
            detect_aa,
            areas,
            n - 1,
        ),
{
    lemma_scan_coordinate_in_grid(left.spec_width() as int, left.spec_height() as int, n);
}

} // verus!
