//! Pixel and image model: 8-bit RGBA pixels in a row-major grid.

use vstd::prelude::*;

verus! {

/// An 8-bit RGB triple, the input of the perceptual color model.
#[derive(PartialEq, Eq, Structural, Clone, Copy, Debug)]
pub struct Rgb {
    pub r: u8,
    pub g: u8,
    pub b: u8,
}

/// An 8-bit RGBA pixel, as stored in an image.
#[derive(PartialEq, Eq, Structural, Clone, Copy, Debug)]
pub struct Rgba {
    pub r: u8,
    pub g: u8,
    pub b: u8,
    pub a: u8,
}

/// The RGB part of a pixel, with the alpha channel dropped.
pub open spec fn rgb_part(p: Rgba) -> Rgb {
    Rgb { r: p.r, g: p.g, b: p.b }
}

/// The fully transparent black pixel that fills a freshly created image.
pub open spec fn transparent_pixel() -> Rgba {
    Rgba { r: 0, g: 0, b: 0, a: 0 }
}

impl Rgba {
    /// Drops the alpha channel.
    pub fn to_rgb(&self) -> (rgb: Rgb)
        ensures
            rgb == rgb_part(*self),
    {
        Rgb { r: self.r, g: self.g, b: self.b }
    }
}

/// A width x height grid of RGBA pixels, stored row-major with x varying
/// fastest, exactly as an 8-bit RGBA frame buffer lays them out.
#[derive(Debug)]
pub struct Image {
    width: u32,
    height: u32,
    data: Vec<Rgba>,
}

impl Image {
    /// The image stores exactly one pixel for every coordinate of its grid.
    pub closed spec fn wf(&self) -> bool {
        self.data@.len() == self.width as int * self.height as int
    }

    pub closed spec fn spec_width(&self) -> u32 {
        self.width
    }

    pub closed spec fn spec_height(&self) -> u32 {
        self.height
    }

    /// The pixel stored at (x, y).
    pub closed spec fn px(&self, x: int, y: int) -> Rgba {
        self.data@[y * self.width + x]
    }

    /// Whether (x, y) lies inside the grid.
    pub open spec fn has_pixel(&self, x: int, y: int) -> bool {
        0 <= x < self.spec_width() && 0 <= y < self.spec_height()
    }

    /// A fresh image of the given size with every pixel fully transparent black.
    pub fn new(width: u32, height: u32) -> (img: Image)
        requires
            width as int * height as int <= usize::MAX as int,
        ensures
            img.wf(),
            img.spec_width() == width,
            img.spec_height() == height,
            forall|x: int, y: int|
                img.has_pixel(x, y) ==> img.px(x, y) == transparent_pixel(),
    {
        let total: usize = (width as usize) * (height as usize);
        let mut data: Vec<Rgba> = Vec::new();
        let mut k: usize = 0;
        while k < total
            invariant
                k <= total,
                total == width as int * height as int,
                data@.len() == k,
                forall|j: int| 0 <= j < k ==> data@[j] == transparent_pixel(),
            decreases total - k,
        {
            data.push(Rgba { r: 0, g: 0, b: 0, a: 0 });
            k = k + 1;
        }
        let img = Image { width, height, data };
        proof {
            assert forall|x: int, y: int| img.has_pixel(x, y) implies img.px(x, y)
                == transparent_pixel() by {
                lemma_row_major_index_bounds(x, y, width as int, height as int);
            }
        }
        img
    }

    pub fn width(&self) -> (w: u32)
        ensures
            w == self.spec_width(),
    {
        self.width
    }

    pub fn height(&self) -> (h: u32)
        ensures
            h == self.spec_height(),
    {
        self.height
    }

    /// Whether (x, y) lies inside the grid.
    pub fn in_bounds(&self, x: u32, y: u32) -> (b: bool)
        ensures
            b == self.has_pixel(x as int, y as int),
    {
        x < self.width && y < self.height
    }

    /// Reads the pixel at (x, y).
    pub fn get_pixel(&self, x: u32, y: u32) -> (p: Rgba)
        requires
            self.wf(),
            self.has_pixel(x as int, y as int),
        ensures
            p == self.px(x as int, y as int),
    {
        proof {
            lemma_row_major_index_bounds(x as int, y as int, self.width as int, self.height as int);
        }
        let n: usize = self.data.len();
        assert((y as int) * (self.width as int) + (x as int) < (n as int));
        let idx: usize = (y as usize) * (self.width as usize) + (x as usize);
        self.data[idx]
    }

    /// Overwrites the pixel at (x, y), leaving every other pixel as it was.
    pub fn put_pixel(&mut self, x: u32, y: u32, p: Rgba)
        requires
            old(self).wf(),
            old(self).has_pixel(x as int, y as int),
        ensures
            final(self).wf(),
            final(self).spec_width() == old(self).spec_width(),
            final(self).spec_height() == old(self).spec_height(),
            final(self).px(x as int, y as int) == p,
            forall|x2: int, y2: int|
                old(self).has_pixel(x2, y2) && !(x2 == x as int && y2 == y as int)
                    ==> final(self).px(x2, y2) == old(self).px(x2, y2),
    {
        proof {
            lemma_row_major_index_bounds(x as int, y as int, self.width as int, self.height as int);
        }
        let n: usize = self.data.len();
        assert((y as int) * (self.width as int) + (x as int) < (n as int));
        let idx: usize = (y as usize) * (self.width as usize) + (x as usize);
        self.data[idx] = p;
        proof {
            assert forall|x2: int, y2: int|
                old(self).has_pixel(x2, y2) && !(x2 == x as int && y2 == y as int) implies self.px(
                x2,
                y2,
            ) == old(self).px(x2, y2) by {
                lemma_row_major_index_bounds(x2, y2, self.width as int, self.height as int);
                lemma_row_major_index_injective(
                    x as int,
                    y as int,
                    x2,
                    y2,
                    self.width as int,
                );
            }
        }
    }

    /// An owned copy with the same size and the same pixels.
    pub fn duplicate(&self) -> (img: Image)
        requires
            self.wf(),
        ensures
            img.wf(),
            img.spec_width() == self.spec_width(),
            img.spec_height() == self.spec_height(),
            forall|x: int, y: int|
                self.has_pixel(x, y) ==> img.px(x, y) == self.px(x, y),
    {
        let len: usize = self.data.len();
        let mut data: Vec<Rgba> = Vec::new();
        let mut k: usize = 0;
        while k < len
            invariant
                k <= len,
                len == self.data@.len(),
                data@.len() == k,
                forall|j: int| 0 <= j < k ==> data@[j] == self.data@[j],
            decreases len - k,
        {
            data.push(self.data[k]);
            k = k + 1;
        }
        let img = Image { width: self.width, height: self.height, data };
        proof {
            assert forall|x: int, y: int| self.has_pixel(x, y) implies img.px(x, y) == self.px(
                x,
                y,
            ) by {
                lemma_row_major_index_bounds(x, y, self.width as int, self.height as int);
            }
        }
        img
    }

    /// Whether the two images have the same size and the same pixels.
    pub closed spec fn eq_spec_image(&self, other: &Image) -> bool {
        self.width == other.width && self.height == other.height && self.data@ =~= other.data@
    }
}

impl PartialEq for Image {
    fn eq(&self, other: &Image) -> (r: bool) {
        if self.width != other.width || self.height != other.height {
            return false;
        }
        if self.data.len() != other.data.len() {
            return false;
        }
        let len: usize = self.data.len();
        let mut k: usize = 0;
        while k < len
            invariant
                k <= len,
                len == self.data@.len(),
                self.data@.len() == other.data@.len(),
                forall|j: int| 0 <= j < k ==> self.data@[j] == other.data@[j],
            decreases len - k,
        {
            if self.data[k] != other.data[k] {
                return false;
            }
            k = k + 1;
        }
        true
    }
}

impl vstd::std_specs::cmp::PartialEqSpecImpl for Image {
    open spec fn obeys_eq_spec() -> bool {
        true
    }

    open spec fn eq_spec(&self, other: &Image) -> bool {
        self.eq_spec_image(other)
    }
}

/// A coordinate inside a width x height grid has a row-major index inside the
/// pixel buffer.
#[verifier::nonlinear]
pub proof fn lemma_row_major_index_bounds(x: int, y: int, width: int, height: int)
    requires
        0 <= x < width,
        0 <= y < height,
    ensures
        0 <= y * width + x < width * height,
{
}

/// Distinct coordinates of a grid have distinct row-major indices.
#[verifier::nonlinear]
pub proof fn lemma_row_major_index_injective(x1: int, y1: int, x2: int, y2: int, width: int)
    requires
        0 <= x1 < width,
        0 <= x2 < width,
        0 <= y1,
        0 <= y2,
        !(x1 == x2 && y1 == y2),
    ensures
        y1 * width + x1 != y2 * width + x2,
{
}

} // verus!
