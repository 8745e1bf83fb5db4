//! Pixels and the raster image that the codec reads and produces.

use vstd::arithmetic::div_mod::lemma_fundamental_div_mod;
use vstd::prelude::*;

verus! {

/// One pixel: red, green, blue and alpha, each from 0 to 255.
#[derive(Clone, Copy, Debug, PartialEq, Eq, Structural)]
pub struct Pixel {
    pub r: u8,
    pub g: u8,
    pub b: u8,
    pub a: u8,
}

impl Pixel {
    /// The same colour at full opacity.
    pub open spec fn opaque(self) -> Pixel {
        Pixel { r: self.r, g: self.g, b: self.b, a: 255 }
    }
}

/// The mathematical content of an image: its dimensions and its pixels in
/// row-major order, every pixel of row 0 before every pixel of row 1.
pub struct Raster {
    pub width: u32,
    pub height: u32,
    pub pixels: Seq<Pixel>,
}

impl Raster {
    /// The grid is full: there are exactly width times height pixels.
    pub open spec fn well_formed(self) -> bool {
        self.pixels.len() == self.width * self.height
    }

    /// The pixel in column `x` of row `y`.
    pub open spec fn at(self, x: int, y: int) -> Pixel
        recommends
            0 <= x < self.width,
            0 <= y < self.height,
    {
        self.pixels[y * self.width + x]
    }

    /// The column of the pixel with the given row-major index.
    pub open spec fn column_of(self, index: int) -> int {
        index % (self.width as int)
    }

    /// The row of the pixel with the given row-major index.
    pub open spec fn row_of(self, index: int) -> int {
        index / (self.width as int)
    }

    /// The same image with every pixel at full opacity.
    pub open spec fn opaque(self) -> Raster {
        Raster {
            width: self.width,
            height: self.height,
            pixels: Seq::new(self.pixels.len(), |i: int| self.pixels[i].opaque()),
        }
    }
}

/// The number of pixels of a grid fits in 64 bits, and the row-major index of
/// a position inside the grid is below that number.
pub proof fn lemma_grid_bounds(width: u32, height: u32, x: int, y: int)
    ensures
        0 <= width * height <= 0xffff_fffe_0000_0001,
        0 <= x < width && 0 <= y < height ==> 0 <= y * width + x < width * height,
        0 <= y < height ==> 0 <= y * width <= width * height - width,
{
    assert(0 <= width * height <= 0xffff_fffe_0000_0001) by (nonlinear_arith)
        requires
            0 <= width <= 0xffff_ffff,
            0 <= height <= 0xffff_ffff,
    ;
    if 0 <= y < height {
        assert(0 <= y * width && (y + 1) * width <= height * width && (y + 1) * width == y * width
            + width) by (nonlinear_arith)
            requires
                0 <= y,
                y + 1 <= height,
                0 <= width,
        ;
    }
}

/// An index below width times height splits into a column below the width
/// and a row below the height, and is the row times the width plus the column.
pub proof fn lemma_row_major(width: u32, height: u32, index: int)
    requires
        0 <= index < width * height,
    ensures
        width > 0,
        0 <= index % (width as int) < width,
        0 <= index / (width as int) < height,
        (index / (width as int)) * width + index % (width as int) == index,
{
    let w = width as int;
    assert(w > 0) by (nonlinear_arith)
        requires
            w * height > 0,
            w >= 0,
    ;
    lemma_fundamental_div_mod(index, w);
    let y = index / w;
    assert(0 <= y < height) by (nonlinear_arith)
        requires
            index == w * y + index % w,
            0 <= index % w < w,
            0 <= index < w * height,
    ;
    assert(y * w == w * y) by (nonlinear_arith);
}

/// A raster image held in memory: a full grid of width times height pixels.
#[derive(Debug, PartialEq, Eq)]
pub struct Image {
    width: u32,
    height: u32,
    pixels: Vec<Pixel>,
}

impl View for Image {
    type V = Raster;

    closed spec fn view(&self) -> Raster {
        Raster { width: self.width, height: self.height, pixels: self.pixels@ }
    }
}

impl Image {
    #[verifier::type_invariant]
    spec fn full_grid(self) -> bool {
        self.pixels@.len() == self.width * self.height
    }

    /// Makes an image from its pixels in row-major order. There is no image
    /// unless the number of pixels is width times height.
    pub fn new(width: u32, height: u32, pixels: Vec<Pixel>) -> (image: Option<Image>)
        ensures
            pixels@.len() != width * height ==> image.is_none(),
            pixels@.len() == width * height ==> image.is_some() && image.unwrap()@ == (Raster {
                width,
                height,
                pixels: pixels@,
            }),
    {
        proof {
            lemma_grid_bounds(width, height, 0, 0);
        }
        let count: u64 = (width as u64) * (height as u64);
        if pixels.len() as u64 != count {
            return None;
        }
        Some(Image { width, height, pixels })
    }

    /// The number of pixels in a row.
    pub fn width(&self) -> (width: u32)
        ensures
            width == self@.width,
            self@.well_formed(),
    {
        proof {
            use_type_invariant(self);
        }
        self.width
    }

    /// The number of rows.
    pub fn height(&self) -> (height: u32)
        ensures
            height == self@.height,
            self@.well_formed(),
    {
        proof {
            use_type_invariant(self);
        }
        self.height
    }

    /// The pixels in row-major order.
    pub fn pixels(&self) -> (pixels: &Vec<Pixel>)
        ensures
            pixels@ == self@.pixels,
            self@.well_formed(),
    {
        proof {
            use_type_invariant(self);
        }
        &self.pixels
    }

    /// Where the pixel of a row-major index lies: the column is the index
    /// modulo the width, the row the index divided by the width.
    pub fn position(&self, index: usize) -> (place: Option<(u32, u32)>)
        ensures
            index >= self@.pixels.len() ==> place.is_none(),
            index < self@.pixels.len() ==> place == Some(
                (self@.column_of(index as int) as u32, self@.row_of(index as int) as u32),
            ),
            index < self@.pixels.len() ==> self@.at(
                self@.column_of(index as int),
                self@.row_of(index as int),
            ) == self@.pixels[index as int],
    {
        proof {
            use_type_invariant(self);
        }
        if index >= self.pixels.len() {
            return None;
        }
        proof {
            lemma_row_major(self.width, self.height, index as int);
        }
        let width = self.width as usize;
        Some(((index % width) as u32, (index / width) as u32))
    }

    /// The pixel in column `x` of row `y`, if the image has one there.
    pub fn pixel(&self, x: u32, y: u32) -> (pixel: Option<Pixel>)
        ensures
            pixel == (if x < self@.width && y < self@.height {
                Some(self@.at(x as int, y as int))
            } else {
                None
            }),
    {
        proof {
            use_type_invariant(self);
        }
        if x >= self.width || y >= self.height {
            return None;
        }
        proof {
            lemma_grid_bounds(self.width, self.height, x as int, y as int);
        }
        let count = self.pixels.len();
        let index: u64 = (y as u64) * (self.width as u64) + (x as u64);
        assert(index < count);
        Some(self.pixels[index as usize])
    }
}

} // verus!
