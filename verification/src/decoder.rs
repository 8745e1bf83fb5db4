//! From a container to its image.

use vstd::prelude::*;
use vstd::slice::slice_subrange;
use vstd::utf8::valid_utf8;

use crate::encoder::LINE_FEED;
use crate::error::CodecError;
use crate::header::{decode_header, header_dims, HEADER_LEN};
use crate::image::{lemma_grid_bounds, Image, Pixel, Raster};
use crate::token::{is_token, parse_token, token_pixel};

verus! {

/// Number of bytes in a token.
pub const TOKEN_LEN: usize = 6;

/// True of every byte but the line feed.
pub open spec fn not_line_feed() -> spec_fn(u8) -> bool {
    |c: u8| c != LINE_FEED
}

/// The text with every line feed taken out.
pub open spec fn strip_newlines(text: Seq<u8>) -> Seq<u8> {
    text.filter(not_line_feed())
}

/// The `index`-th run of six bytes.
pub open spec fn token_at(stream: Seq<u8>, index: int) -> Seq<u8> {
    stream.subrange(6 * index, 6 * index + 6)
}

/// Each of the first `count` runs of six bytes is a token.
pub open spec fn all_tokens(stream: Seq<u8>, count: int) -> bool {
    forall|i: int| 0 <= i < count ==> is_token(#[trigger] token_at(stream, i))
}

/// The pixels that the first `count` tokens of the stream stand for.
pub open spec fn token_pixels(stream: Seq<u8>, count: int) -> Seq<Pixel> {
    Seq::new(count as nat, |i: int| token_pixel(token_at(stream, i)))
}

/// What decoding a container yields. The checks come in this order: the
/// header is there; the text, line feeds removed, is valid UTF-8; it splits
/// into width times height runs of six bytes; every run is a token. The
/// image has the header's dimensions, and its pixel `i`, in row-major order,
/// is the colour of token `i` at full opacity.
pub open spec fn decoded(container: Seq<u8>) -> Result<Raster, CodecError> {
    if container.len() < 8 {
        Err(CodecError::HeaderError)
    } else {
        let (width, height) = header_dims(container);
        let stream = strip_newlines(container.skip(8));
        if !valid_utf8(stream) {
            Err(CodecError::EncodingError)
        } else if stream.len() % 6 != 0 || stream.len() / 6 != width * height {
            Err(CodecError::TokenLengthError)
        } else if !all_tokens(stream, width * height) {
            Err(CodecError::ColorParseError)
        } else {
            Ok(Raster { width, height, pixels: token_pixels(stream, width * height) })
        }
    }
}

/// The outcome of a decode call, with the image seen as its content.
pub open spec fn outcome(result: Result<Image, CodecError>) -> Result<Raster, CodecError> {
    match result {
        Ok(image) => Ok(image@),
        Err(error) => Err(error),
    }
}

/// Takes every line feed out of the text.
pub fn remove_newlines(text: &[u8]) -> (stream: Vec<u8>)
    ensures
        stream@ == strip_newlines(text@),
{
    let mut stream: Vec<u8> = Vec::new();
    let mut i: usize = 0;
    assert(text@.subrange(0, 0) =~= Seq::<u8>::empty());
    while i < text.len()
        invariant
            i <= text@.len(),
            stream@ == strip_newlines(text@.subrange(0, i as int)),
        decreases text@.len() - i,
    {
        let c = text[i];
        if c != LINE_FEED {
            stream.push(c);
        }
        i += 1;
        proof {
            reveal(Seq::filter);
            let seen = text@.subrange(0, i as int);
            assert(seen.drop_last() =~= text@.subrange(0, i - 1));
        }
    }
    assert(text@.subrange(0, i as int) =~= text@);
    stream
}

/// Decodes a container into its image.
pub fn decode(container: &[u8]) -> (image: Result<Image, CodecError>)
    ensures
        outcome(image) == decoded(container@),
{
    let (width, height) = match decode_header(container) {
        Ok(dims) => dims,
        Err(error) => { return Err(error); },
    };
    let text = slice_subrange(container, HEADER_LEN, container.len());
    assert(text@ =~= container@.skip(8));
    let stream = remove_newlines(text);
    match core::str::from_utf8(stream.as_slice()) {
        Ok(_) => {},
        Err(_) => { return Err(CodecError::EncodingError); },
    }
    proof {
        lemma_grid_bounds(width, height, 0, 0);
    }
    let count = stream.len() / TOKEN_LEN;
    if stream.len() % TOKEN_LEN != 0 || count as u64 != (width as u64) * (height as u64) {
        return Err(CodecError::TokenLengthError);
    }
    let mut pixels: Vec<Pixel> = Vec::new();
    let mut i: usize = 0;
    while i < count
        invariant
            i <= count,
            container@.len() >= 8,
            header_dims(container@) == (width, height),
            stream@ == strip_newlines(container@.skip(8)),
            valid_utf8(stream@),
            stream@.len() == 6 * count,
            stream@.len() <= usize::MAX,
            count == width * height,
            all_tokens(stream@, i as int),
            pixels@ == token_pixels(stream@, i as int),
        decreases count - i,
    {
        let token = slice_subrange(stream.as_slice(), TOKEN_LEN * i, TOKEN_LEN * i + TOKEN_LEN);
        assert(token@ == token_at(stream@, i as int));
        match parse_token(token) {
            Ok(pixel) => {
                pixels.push(pixel);
            },
            Err(error) => {
                assert(!is_token(token_at(stream@, i as int)));
                return Err(error);
            },
        }
        i += 1;
        assert(pixels@ =~= token_pixels(stream@, i as int));
    }
    match Image::new(width, height, pixels) {
        Some(image) => Ok(image),
        // Not reached: there is one pixel for each token.
        None => Err(CodecError::TokenLengthError),
    }
}

} // verus!
