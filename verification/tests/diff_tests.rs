use dify::cli::{BlockOutArea, OutputImageBase};
use dify::diff::{classify, compare, get_results, scale_threshold, DiffError, DiffResult, RunParams};
use dify::img::{Image, Rgba};

// 0.05 in the metric's fixed-point squared-distance units.
const THRESHOLD_05: u128 = 8_803_750_000_000_000_000_000;

fn yellow_pixel() -> Rgba {
    Rgba { r: 255, g: 255, b: 0, a: 255 }
}

fn red_pixel() -> Rgba {
    Rgba { r: 255, g: 0, b: 0, a: 255 }
}

fn no_areas() -> Vec<BlockOutArea> {
    Vec::new()
}

fn run_params() -> RunParams {
    RunParams {
        threshold: 50_000,
        output_image_base: None,
        do_not_check_dimensions: true,
        detect_anti_aliased_pixels: false,
        blend_factor_of_unchanged_pixels: None,
        block_out_areas: Vec::new(),
    }
}

#[test]
fn test_zero_width_height() {
    let actual = get_results(
        &Image::new(0, 0),
        &Image::new(0, 0),
        THRESHOLD_05,
        false,
        None,
        &None,
        &no_areas(),
    );
    assert_eq!(None, actual);
}

#[test]
fn test_1_pixel() {
    let actual = get_results(
        &Image::new(1, 1),
        &Image::new(1, 1),
        THRESHOLD_05,
        false,
        None,
        &None,
        &no_areas(),
    );
    assert_eq!(None, actual);
}

#[test]
fn test_1_different() {
    let mut left = Image::new(1, 1);
    left.put_pixel(0, 0, yellow_pixel());
    let actual = get_results(&left, &Image::new(1, 1), THRESHOLD_05, false, None, &None, &no_areas());

    let mut expected_image = Image::new(1, 1);
    expected_image.put_pixel(0, 0, red_pixel());

    assert_eq!(Some((1, expected_image)), actual);
}

#[test]
fn test_scale_threshold_values() {
    // MAX_YIQ_POSSIBLE_DELTA * t^2, in fixed-point units of 10^-20.
    assert_eq!(scale_threshold(1_000_000), 3_521_500_000_000_000_000_000_000);
    assert_eq!(scale_threshold(100_000), 35_215_000_000_000_000_000_000);
    assert_eq!(scale_threshold(50_000), THRESHOLD_05);
    assert_eq!(scale_threshold(0), 0);
}

#[test]
fn test_one_yellow_pixel_against_black() {
    // One pure yellow pixel in an otherwise black 2x2 pair: exactly one
    // difference, the three matching coordinates left untouched.
    let mut left = Image::new(2, 2);
    left.put_pixel(1, 0, yellow_pixel());
    let right = Image::new(2, 2);
    assert_eq!(DiffResult::Identical(0, 0), classify(&left, &right, THRESHOLD_05, false, 0, 0));
    assert_eq!(DiffResult::Different(1, 0), classify(&left, &right, THRESHOLD_05, false, 1, 0));
    assert_eq!(DiffResult::Identical(0, 1), classify(&left, &right, THRESHOLD_05, false, 0, 1));
    assert_eq!(DiffResult::Identical(1, 1), classify(&left, &right, THRESHOLD_05, false, 1, 1));
    let (diffs, output) = get_results(&left, &right, THRESHOLD_05, false, None, &None, &no_areas())
        .expect("one difference must produce an output");
    assert_eq!(1, diffs);
    assert_eq!(red_pixel(), output.get_pixel(1, 0));
    let transparent = Rgba { r: 0, g: 0, b: 0, a: 0 };
    assert_eq!(transparent, output.get_pixel(0, 0));
    assert_eq!(transparent, output.get_pixel(0, 1));
    assert_eq!(transparent, output.get_pixel(1, 1));
}

#[test]
fn test_left_larger_than_right_counts_out_of_bounds() {
    // With the dimension check disabled, the left column exists in both
    // images and matches; the right column is out of bounds and counts.
    let left = Image::new(2, 1);
    let right = Image::new(1, 1);
    let mut params = run_params();
    params.do_not_check_dimensions = true;
    assert_eq!(DiffResult::OutOfBounds(1, 0), classify(&left, &right, THRESHOLD_05, false, 1, 0));
    let result = compare(&left, &right, &params).expect("dimension check is off");
    let (diffs, output) = result.expect("an out-of-bounds pixel must produce an output");
    assert_eq!(1, diffs);
    assert_eq!(red_pixel(), output.get_pixel(1, 0));
    assert_eq!(Rgba { r: 0, g: 0, b: 0, a: 0 }, output.get_pixel(0, 0));
}

#[test]
fn test_dimension_mismatch_error() {
    let left = Image::new(2, 1);
    let right = Image::new(1, 1);
    let mut params = run_params();
    params.do_not_check_dimensions = false;
    let actual = compare(&left, &right, &params);
    assert_eq!(
        Err(DiffError::DimensionMismatch {
            left_width: 2,
            left_height: 1,
            right_width: 1,
            right_height: 1,
        }),
        actual
    );
}

#[test]
fn test_invalid_threshold_error() {
    let img = Image::new(1, 1);
    let mut params = run_params();
    params.threshold = 2_000_000;
    assert_eq!(Err(DiffError::InvalidThreshold), compare(&img, &img, &params));
}

#[test]
fn test_invalid_alpha_error() {
    let img = Image::new(1, 1);
    let mut params = run_params();
    params.blend_factor_of_unchanged_pixels = Some(2_000_000);
    assert_eq!(Err(DiffError::InvalidAlpha), compare(&img, &img, &params));
}

#[test]
fn test_self_comparison_yields_none() {
    let mut img = Image::new(3, 2);
    let mut v: u8 = 0;
    for y in 0..2 {
        for x in 0..3 {
            img.put_pixel(x, y, Rgba { r: v, g: 255 - v, b: v, a: 255 });
            v += 40;
        }
    }
    let actual = get_results(&img, &img, THRESHOLD_05, true, None, &None, &no_areas());
    assert_eq!(None, actual);
}

#[test]
fn test_identical_pixels_classify_identical_at_zero_threshold() {
    let mut left = Image::new(1, 1);
    let mut right = Image::new(1, 1);
    left.put_pixel(0, 0, yellow_pixel());
    right.put_pixel(0, 0, yellow_pixel());
    assert_eq!(DiffResult::Identical(0, 0), classify(&left, &right, 0, false, 0, 0));
}

#[test]
fn test_raising_threshold_keeps_below_threshold() {
    // A barely different pixel pair: over a zero threshold it is a
    // difference; below a generous one it stays below, and raising the
    // threshold further never turns it back into a difference.
    let mut left = Image::new(1, 1);
    let mut right = Image::new(1, 1);
    left.put_pixel(0, 0, Rgba { r: 10, g: 10, b: 10, a: 255 });
    right.put_pixel(0, 0, Rgba { r: 11, g: 11, b: 11, a: 255 });
    assert_eq!(DiffResult::Different(0, 0), classify(&left, &right, 0, false, 0, 0));
    assert_eq!(
        DiffResult::BelowThreshold(0, 0),
        classify(&left, &right, THRESHOLD_05, false, 0, 0)
    );
    assert_eq!(
        DiffResult::BelowThreshold(0, 0),
        classify(&left, &right, scale_threshold(1_000_000), false, 0, 0)
    );
}

#[test]
fn test_max_threshold_classifies_everything_below() {
    // A threshold of 1.0 scales to the largest possible distance, so
    // even pure yellow against black stays below it.
    let mut left = Image::new(1, 1);
    left.put_pixel(0, 0, yellow_pixel());
    let right = Image::new(1, 1);
    assert_eq!(
        DiffResult::BelowThreshold(0, 0),
        classify(&left, &right, scale_threshold(1_000_000), false, 0, 0)
    );
}

#[test]
fn test_block_out_area_masks_difference() {
    // A genuine difference at (1, 1) sits inside a block-out rectangle:
    // it neither counts nor gets marked, so nothing is produced.
    let mut left = Image::new(2, 2);
    left.put_pixel(1, 1, yellow_pixel());
    let right = Image::new(2, 2);
    let areas = vec![BlockOutArea { x: 1, y: 1, width: 1, height: 1 }];
    let actual = get_results(&left, &right, THRESHOLD_05, false, None, &None, &areas);
    assert_eq!(None, actual);
}

#[test]
fn test_degenerate_block_out_area_is_dropped() {
    // A rectangle with a zero component takes no part in blocking.
    let mut left = Image::new(2, 2);
    left.put_pixel(1, 1, yellow_pixel());
    let right = Image::new(2, 2);
    let areas = vec![BlockOutArea { x: 0, y: 1, width: 1, height: 1 }];
    let (diffs, output) = get_results(&left, &right, THRESHOLD_05, false, None, &None, &areas)
        .expect("the degenerate rectangle must not mask the difference");
    assert_eq!(1, diffs);
    assert_eq!(red_pixel(), output.get_pixel(1, 1));
}

#[test]
fn test_full_blend_factor_reproduces_pixel() {
    // A blend factor of 1.0 on an unchanged opaque gray pixel keeps its
    // color: the pixel is its own luminance.
    let mut img = Image::new(1, 1);
    img.put_pixel(0, 0, Rgba { r: 100, g: 100, b: 100, a: 255 });
    let (diffs, output) = get_results(
        &img,
        &img,
        THRESHOLD_05,
        false,
        Some(1_000_000),
        &None,
        &no_areas(),
    )
        .expect("a configured blend factor always produces an output");
    assert_eq!(0, diffs);
    assert_eq!(Rgba { r: 100, g: 100, b: 100, a: 255 }, output.get_pixel(0, 0));
}

#[test]
fn test_zero_blend_factor_whitens() {
    // A blend factor of 0.0 turns every unchanged pixel pure white,
    // alpha forced to the maximum.
    let mut img = Image::new(1, 1);
    img.put_pixel(0, 0, Rgba { r: 30, g: 200, b: 9, a: 255 });
    let (diffs, output) = get_results(&img, &img, THRESHOLD_05, false, Some(0), &None, &no_areas())
        .expect("a configured blend factor always produces an output");
    assert_eq!(0, diffs);
    assert_eq!(Rgba { r: 255, g: 255, b: 255, a: 255 }, output.get_pixel(0, 0));
}

#[test]
fn test_copy_left_image_as_base() {
    // With the left image as the base, unchanged pixels keep the left
    // image's colors when no blend factor is set.
    let mut left = Image::new(2, 1);
    left.put_pixel(0, 0, Rgba { r: 1, g: 2, b: 3, a: 4 });
    left.put_pixel(1, 0, yellow_pixel());
    let right = Image::new(2, 1);
    let (diffs, output) = get_results(
        &left,
        &right,
        THRESHOLD_05,
        false,
        None,
        &Some(OutputImageBase::LeftImage),
        &no_areas(),
    )
        .expect("one difference must produce an output");
    assert_eq!(1, diffs);
    assert_eq!(Rgba { r: 1, g: 2, b: 3, a: 4 }, output.get_pixel(0, 0));
    assert_eq!(red_pixel(), output.get_pixel(1, 0));
}

#[test]
fn test_copy_right_image_as_base() {
    let mut left = Image::new(1, 1);
    left.put_pixel(0, 0, yellow_pixel());
    let mut right = Image::new(1, 1);
    right.put_pixel(0, 0, Rgba { r: 9, g: 9, b: 9, a: 255 });
    let (diffs, output) = get_results(
        &left,
        &right,
        THRESHOLD_05,
        false,
        None,
        &Some(OutputImageBase::RightImage),
        &no_areas(),
    )
        .expect("one difference must produce an output");
    assert_eq!(1, diffs);
    assert_eq!(red_pixel(), output.get_pixel(0, 0));
}

#[test]
fn test_anti_aliased_pixel_marked_yellow() {
    // The blended edge pixel of a luminance gradient differs between
    // the two images; with detection on it is painted yellow and not
    // counted, with detection off it counts as a difference.
    let mut left = Image::new(5, 5);
    let mut right = Image::new(5, 5);
    for y in 0..5 {
        let v = if y < 2 {
            0
        } else if y == 2 {
            100
        } else {
            200
        };
        for x in 0..5 {
            left.put_pixel(x, y, Rgba { r: v, g: v, b: v, a: 255 });
            let w = if y == 2 { 130 } else { v };
            right.put_pixel(x, y, Rgba { r: w, g: w, b: w, a: 255 });
        }
    }

    let with_detection = classify(&left, &right, THRESHOLD_05, true, 2, 2);
    assert_eq!(DiffResult::AntiAliased(2, 2), with_detection);
    let without_detection = classify(&left, &right, THRESHOLD_05, false, 2, 2);
    assert_eq!(DiffResult::Different(2, 2), without_detection);
}

#[test]
fn test_compare_identical_images() {
    let mut img = Image::new(2, 2);
    img.put_pixel(0, 1, yellow_pixel());
    let mut params = run_params();
    params.do_not_check_dimensions = false;
    assert_eq!(Ok(None), compare(&img, &img, &params));
}
