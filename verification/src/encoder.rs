//! From an image to its container.

use vstd::prelude::*;

use crate::header::{encode_header, header_bytes};
use crate::image::{Image, Pixel, Raster};
use crate::token::{pixel_token, token_of};

verus! {

/// The byte that separates the rows of a container: a line feed.
pub const LINE_FEED: u8 = 10;

/// What stands between the pixel at `index` and the one before it: a line
/// feed where the pixel is the first of a row other than row 0, else nothing.
pub open spec fn separator(index: int, width: u32) -> Seq<u8> {
    if index > 0 && width > 0 && index % (width as int) == 0 {
        seq![LINE_FEED]
    } else {
        Seq::empty()
    }
}

/// The text of a container: the pixels' tokens in row-major order, the rows
/// separated by a line feed. There is no line feed after the last row.
pub open spec fn payload(pixels: Seq<Pixel>, width: u32) -> Seq<u8>
    decreases pixels.len(),
{
    if pixels.len() == 0 {
        Seq::empty()
    } else {
        let last = pixels.last();
        payload(pixels.drop_last(), width) + separator(pixels.len() - 1, width) + token_of(
            last.r,
            last.g,
            last.b,
        )
    }
}

/// The container of an image: its header, then its text. Alpha is not part
/// of it.
pub open spec fn container_of(image: Raster) -> Seq<u8> {
    header_bytes(image.width, image.height) + payload(image.pixels, image.width)
}

/// Encodes an image as a container.
pub fn encode(image: &Image) -> (container: Vec<u8>)
    ensures
        container@ == container_of(image@),
        image@.well_formed(),
{
    let width = image.width();
    let height = image.height();
    let pixels = image.pixels();
    let mut container = encode_header(width, height);
    let mut i: usize = 0;
    while i < pixels.len()
        invariant
            i <= pixels@.len(),
            pixels@.len() == width * height,
            container@ == header_bytes(width, height) + payload(pixels@.subrange(0, i as int), width),
        decreases pixels@.len() - i,
    {
        assert(width > 0) by (nonlinear_arith)
            requires
                width * height > 0,
        ;
        if i > 0 && i % (width as usize) == 0 {
            container.push(LINE_FEED);
        }
        let pixel = pixels[i];
        let mut token = pixel_token(pixel.r, pixel.g, pixel.b);
        container.append(&mut token);
        i += 1;
        proof {
            let done = pixels@.subrange(0, i as int);
            assert(done.drop_last() =~= pixels@.subrange(0, i - 1));
            assert(done.last() == pixel);
            assert(container@ =~= header_bytes(width, height) + payload(done, width));
        }
    }
    assert(pixels@.subrange(0, i as int) =~= pixels@);
    container
}

} // verus!
