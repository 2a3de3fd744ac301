use dify::img::{Image, Rgba};
use dify::{
    antialiased, blend_semi_transparent_white, get_diagonal_neighbours, has_many_siblings,
    on_the_edge,
};

fn solid(width: u32, height: u32, p: Rgba) -> Image {
    let mut img = Image::new(width, height);
    for y in 0..height {
        for x in 0..width {
            img.put_pixel(x, y, p);
        }
    }
    img
}

fn gray(v: u8) -> Rgba {
    Rgba { r: v, g: v, b: v, a: 255 }
}

#[test]
fn test_diagonal_neighbours_interior() {
    assert_eq!(get_diagonal_neighbours(5, 5, 10, 10), ((4, 4), (6, 6)));
}

#[test]
fn test_diagonal_neighbours_corner() {
    assert_eq!(get_diagonal_neighbours(0, 0, 10, 10), ((0, 0), (1, 1)));
    assert_eq!(get_diagonal_neighbours(9, 9, 10, 10), ((8, 8), (9, 9)));
}

#[test]
fn test_diagonal_neighbours_degenerate() {
    assert_eq!(get_diagonal_neighbours(0, 0, 0, 0), ((0, 0), (0, 0)));
    assert_eq!(get_diagonal_neighbours(0, 0, 1, 1), ((0, 0), (0, 0)));
}

#[test]
fn test_on_the_edge() {
    assert!(on_the_edge((0, 0), (0, 1), (1, 2)));
    assert!(on_the_edge((0, 0), (1, 2), (1, 2)));
    assert!(!on_the_edge((0, 0), (1, 1), (2, 2)));
}

#[test]
fn test_has_many_siblings_uniform() {
    let img = solid(3, 3, gray(7));
    // The interior pixel starts at one and finds eight identical neighbors.
    assert!(has_many_siblings(&img, 1, 1, 3, 3));
    // A corner pixel starts at zero and still finds three.
    assert!(has_many_siblings(&img, 0, 0, 3, 3));
}

#[test]
fn test_has_many_siblings_all_distinct() {
    let mut img = Image::new(3, 3);
    let mut v: u8 = 0;
    for y in 0..3 {
        for x in 0..3 {
            img.put_pixel(x, y, gray(v));
            v += 1;
        }
    }
    assert!(!has_many_siblings(&img, 1, 1, 3, 3));
}

#[test]
fn test_has_many_siblings_boundary_seed_polarity() {
    // The same pattern of exactly two identical neighbors passes for an
    // interior center, whose count is seeded at one, and fails for a
    // boundary center, whose count is seeded at zero.
    let mut interior = Image::new(3, 3);
    for y in 0..3 {
        for x in 0..3 {
            interior.put_pixel(x, y, gray((1 + y * 3 + x) as u8));
        }
    }
    interior.put_pixel(1, 1, gray(100));
    interior.put_pixel(0, 0, gray(100));
    interior.put_pixel(2, 2, gray(100));
    assert!(has_many_siblings(&interior, 1, 1, 3, 3));

    let mut boundary = Image::new(3, 3);
    for y in 0..3 {
        for x in 0..3 {
            boundary.put_pixel(x, y, gray((1 + y * 3 + x) as u8));
        }
    }
    boundary.put_pixel(1, 0, gray(100));
    boundary.put_pixel(0, 1, gray(100));
    boundary.put_pixel(2, 1, gray(100));
    assert!(!has_many_siblings(&boundary, 1, 0, 3, 3));
}

#[test]
fn test_antialiased_single_pixel() {
    let img = solid(1, 1, gray(10));
    let other = solid(1, 1, gray(200));
    assert!(!antialiased(&img, 0, 0, 1, 1, &other));
}

#[test]
fn test_antialiased_uniform_neighborhood() {
    // Every neighbor matches the center exactly, so the zero-delta
    // counter passes two and the pixel is judged not anti-aliased.
    let img = solid(3, 3, gray(7));
    let other = solid(3, 3, gray(9));
    assert!(!antialiased(&img, 1, 1, 3, 3, &other));
}

#[test]
fn test_antialiased_gradient_edge() {
    // A horizontal luminance gradient: two dark rows, one middle row,
    // two bright rows. The extreme-delta neighbors of the center sit in
    // solid areas with many identical siblings, so the center looks
    // like a blended edge in both images.
    let mut img = Image::new(5, 5);
    for y in 0..5 {
        let v = if y < 2 {
            0
        } else if y == 2 {
            100
        } else {
            200
        };
        for x in 0..5 {
            img.put_pixel(x, y, gray(v));
        }
    }
    assert!(antialiased(&img, 2, 2, 5, 5, &img));
}

#[test]
fn test_blend_semi_transparent_white() {
    const WHITE: i64 = 25_500_000_000;
    const MID: i64 = 12_800_000_000;
    const BLACK: i64 = 0;

    assert_eq!(255, blend_semi_transparent_white(WHITE, 0, 255));
    assert_eq!(255, blend_semi_transparent_white(WHITE, 100_000, 255));
    assert_eq!(255, blend_semi_transparent_white(WHITE, 300_000, 255));
    assert_eq!(255, blend_semi_transparent_white(WHITE, 500_000, 255));
    assert_eq!(255, blend_semi_transparent_white(WHITE, 700_000, 255));
    assert_eq!(255, blend_semi_transparent_white(WHITE, 900_000, 255));
    assert_eq!(255, blend_semi_transparent_white(WHITE, 1_000_000, 255));

    assert_eq!(255, blend_semi_transparent_white(MID, 0, 255));
    assert_eq!(242, blend_semi_transparent_white(MID, 100_000, 255));
    assert_eq!(216, blend_semi_transparent_white(MID, 300_000, 255));
    assert_eq!(191, blend_semi_transparent_white(MID, 500_000, 255));
    assert_eq!(166, blend_semi_transparent_white(MID, 700_000, 255));
    assert_eq!(140, blend_semi_transparent_white(MID, 900_000, 255));
    assert_eq!(128, blend_semi_transparent_white(MID, 1_000_000, 255));

    assert_eq!(255, blend_semi_transparent_white(BLACK, 0, 255));
    assert_eq!(229, blend_semi_transparent_white(BLACK, 100_000, 255));
    assert_eq!(178, blend_semi_transparent_white(BLACK, 300_000, 255));
    assert_eq!(127, blend_semi_transparent_white(BLACK, 500_000, 255));
    assert_eq!(76, blend_semi_transparent_white(BLACK, 700_000, 255));
    assert_eq!(25, blend_semi_transparent_white(BLACK, 900_000, 255));
    assert_eq!(0, blend_semi_transparent_white(BLACK, 1_000_000, 255));
}

#[test]
fn test_blend_transparent_pixel_untouched_by_factor() {
    // A fully transparent pixel blends to pure white whatever the factor.
    assert_eq!(255, blend_semi_transparent_white(0, 1_000_000, 0));
    assert_eq!(255, blend_semi_transparent_white(12_800_000_000, 500_000, 0));
}
