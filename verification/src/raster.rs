//! Decoded raster images: a `width x height` grid of 8-bit RGBA pixels.
//!
//! The executable image keeps its pixels as raw bytes, four per pixel, row by
//! row. Contracts speak of its view, a mathematical grid of pixels.

use vstd::prelude::*;

verus! {

/// One pixel: red, green, blue and alpha, each in `0..=255`.
#[derive(Clone, Copy, Debug, PartialEq, Eq, Structural)]
pub struct Rgba {
    pub r: u8,
    pub g: u8,
    pub b: u8,
    pub a: u8,
}

/// The mathematical model of an image: its size and its pixels, row by row
/// from the top-left corner.
pub struct ImageView {
    pub width: nat,
    pub height: nat,
    pub pixels: Seq<Rgba>,
}

impl ImageView {
    /// Whether there is exactly one pixel for every coordinate.
    pub open spec fn wf(self) -> bool {
        self.pixels.len() == self.width * self.height
    }

    pub open spec fn in_bounds(self, x: int, y: int) -> bool {
        0 <= x < self.width && 0 <= y < self.height
    }

    /// The pixel in column `x` of row `y`.
    pub open spec fn pixel(self, x: int, y: int) -> Rgba {
        self.pixels[y * self.width + x]
    }
}

/// The pixel that starts at byte `4 * i` of a raw RGBA buffer.
pub open spec fn pixel_from_raw(data: Seq<u8>, i: int) -> Rgba {
    Rgba { r: data[4 * i], g: data[4 * i + 1], b: data[4 * i + 2], a: data[4 * i + 3] }
}

/// The image that a raw RGBA buffer of `4 * width * height` bytes holds.
pub open spec fn view_from_raw(width: nat, height: nat, data: Seq<u8>) -> ImageView {
    ImageView {
        width,
        height,
        pixels: Seq::new(width * height, |i: int| pixel_from_raw(data, i)),
    }
}

/// A coordinate inside a `width x height` grid has a row-major index inside
/// the grid.
pub proof fn lemma_index_in_range(x: int, y: int, width: int, height: int)
    requires
        0 <= x < width,
        0 <= y < height,
    ensures
        0 <= y * width + x < width * height,
        y * width >= 0,
{
    assert(y * width + width <= height * width && y * width >= 0 && height * width == width
        * height) by (nonlinear_arith)
        requires
            0 <= y < height,
            0 < width,
    ;
}

/// A row-major index determines its coordinate.
pub proof fn lemma_index_to_coordinate(x: int, y: int, width: int)
    requires
        0 <= x < width,
        0 <= y,
    ensures
        (y * width + x) % width == x,
        (y * width + x) / width == y,
{
    vstd::arithmetic::div_mod::lemma_fundamental_div_mod_converse(y * width + x, width, y, x);
}

/// A decoded image. It is immutable once built: compositing reads it and
/// builds a new image.
#[derive(Debug)]
pub struct RasterImage {
    width: u32,
    height: u32,
    data: Vec<u8>,
}

impl View for RasterImage {
    type V = ImageView;

    closed spec fn view(&self) -> ImageView {
        view_from_raw(self.width as nat, self.height as nat, self.data@)
    }
}

impl RasterImage {
    #[verifier::type_invariant]
    spec fn buffer_fits(self) -> bool {
        self.data@.len() == 4 * (self.width * self.height)
    }

    /// The raw bytes, four per pixel.
    pub closed spec fn raw(&self) -> Seq<u8> {
        self.data@
    }

    /// The view is the grid that the raw bytes hold, and has one pixel per
    /// coordinate.
    pub proof fn lemma_view(&self)
        ensures
            self@ == view_from_raw(self@.width, self@.height, self.raw()),
            self@.wf(),
            self@.width <= u32::MAX,
            self@.height <= u32::MAX,
    {
    }

    /// Builds an image from raw RGBA bytes, or nothing when the buffer does
    /// not hold exactly `4 * width * height` bytes.
    pub fn from_raw(width: u32, height: u32, data: Vec<u8>) -> (res: Option<RasterImage>)
        ensures
            res is Some <==> data@.len() == 4 * (width * height),
            res matches Some(img) ==> img@ == view_from_raw(width as nat, height as nat, data@)
                && img.raw() == data@,
    {
        assert(width * height <= 0xFFFF_FFFF * 0xFFFF_FFFF) by (nonlinear_arith)
            requires
                width <= 0xFFFF_FFFF,
                height <= 0xFFFF_FFFF,
        ;
        let want: u128 = 4 * ((width as u128) * (height as u128));
        if data.len() as u128 == want {
            Some(RasterImage { width, height, data })
        } else {
            None
        }
    }

    pub fn width(&self) -> (w: u32)
        ensures
            w == self@.width,
    {
        self.width
    }

    pub fn height(&self) -> (h: u32)
        ensures
            h == self@.height,
    {
        self.height
    }

    /// The number of pixels, which always fits the machine's index type.
    pub fn pixel_count(&self) -> (n: usize)
        ensures
            n == self@.width * self@.height,
            4 * n <= usize::MAX,
            self@.wf(),
    {
        proof {
            use_type_invariant(self);
        }
        self.data.len() / 4
    }

    /// The raw bytes, four per pixel, row by row.
    pub fn as_raw(&self) -> (data: &Vec<u8>)
        ensures
            data@ == self.raw(),
            data@.len() == 4 * (self@.width * self@.height),
            self@ == view_from_raw(self@.width, self@.height, data@),
    {
        proof {
            use_type_invariant(self);
        }
        &self.data
    }

    /// Gives up the image for its raw bytes.
    pub fn into_raw(self) -> (data: Vec<u8>)
        ensures
            data@ == self.raw(),
            data@.len() == 4 * (self@.width * self@.height),
            self@ == view_from_raw(self@.width, self@.height, data@),
    {
        proof {
            use_type_invariant(&self);
        }
        self.data
    }

    /// The pixel in column `x` of row `y`, or nothing outside the image.
    pub fn get_pixel(&self, x: u32, y: u32) -> (p: Option<Rgba>)
        ensures
            p is Some <==> self@.in_bounds(x as int, y as int),
            p matches Some(px) ==> px == self@.pixel(x as int, y as int),
    {
        proof {
            use_type_invariant(self);
        }
        if x >= self.width || y >= self.height {
            return None;
        }
        let len = self.data.len();
        proof {
            lemma_index_in_range(x as int, y as int, self.width as int, self.height as int);
            assert(len == 4 * (self.width * self.height));
            assert(4 * ((y as int) * (self.width as int) + (x as int)) + 3 < len);
            assert((y as int) * (self.width as int) <= len);
        }
        let i: usize = (y as usize) * (self.width as usize) + (x as usize);
        Some(
            Rgba {
                r: self.data[4 * i],
                g: self.data[4 * i + 1],
                b: self.data[4 * i + 2],
                a: self.data[4 * i + 3],
            },
        )
    }
}

} // verus!
