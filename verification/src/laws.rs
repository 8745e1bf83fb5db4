//! What holds of encoding and decoding together.

use vstd::arithmetic::div_mod::{
    lemma_fundamental_div_mod, lemma_fundamental_div_mod_converse, lemma_mod_multiples_basic,
};
use vstd::prelude::*;
use vstd::utf8::valid_utf8;

use crate::decoder::{
    all_tokens, decoded, not_line_feed, strip_newlines, token_at, token_pixels,
};
use crate::encoder::{container_of, payload, separator, LINE_FEED};
use crate::error::CodecError;
use crate::header::{header_bytes, header_dims, lemma_header_round_trip};
use crate::image::{lemma_row_major, Pixel, Raster};
use crate::text::lemma_ascii_text;
use crate::token::{is_hex_digit, is_token, lemma_token_round_trip, token_of};

verus! {

/// The tokens of the pixels, one after the other, with nothing in between.
pub open spec fn token_stream(pixels: Seq<Pixel>) -> Seq<u8>
    decreases pixels.len(),
{
    if pixels.len() == 0 {
        Seq::empty()
    } else {
        let last = pixels.last();
        token_stream(pixels.drop_last()) + token_of(last.r, last.g, last.b)
    }
}

/// A token stream holds six hexadecimal digits for each pixel, and its
/// `i`-th run of six bytes is the token of pixel `i`.
pub proof fn lemma_token_stream(pixels: Seq<Pixel>)
    ensures
        token_stream(pixels).len() == 6 * pixels.len(),
        forall|k: int|
            0 <= k < token_stream(pixels).len() ==> is_hex_digit(#[trigger] token_stream(pixels)[k]),
        forall|i: int|
            0 <= i < pixels.len() ==> #[trigger] token_at(token_stream(pixels), i) == token_of(
                pixels[i].r,
                pixels[i].g,
                pixels[i].b,
            ),
    decreases pixels.len(),
{
    if pixels.len() > 0 {
        let front = pixels.drop_last();
        let last = pixels.last();
        let token = token_of(last.r, last.g, last.b);
        lemma_token_stream(front);
        lemma_token_round_trip(last.r, last.g, last.b);
        let stream = token_stream(pixels);
        assert(stream == token_stream(front) + token);
        assert forall|i: int| 0 <= i < pixels.len() implies #[trigger] token_at(stream, i)
            == token_of(pixels[i].r, pixels[i].g, pixels[i].b) by {
            if i < front.len() {
                assert(token_at(stream, i) =~= token_at(token_stream(front), i));
                assert(front[i] == pixels[i]);
            } else {
                assert(token_at(stream, i) =~= token);
            }
        }
    }
}

/// Line feeds are taken out of each part of a text separately.
pub proof fn lemma_strip_concat(front: Seq<u8>, back: Seq<u8>)
    ensures
        strip_newlines(front + back) == strip_newlines(front) + strip_newlines(back),
{
    Seq::filter_distributes_over_add(front, back, not_line_feed());
}

/// A text without line feeds is left as it is.
pub proof fn lemma_strip_keeps(text: Seq<u8>)
    requires
        forall|i: int| 0 <= i < text.len() ==> #[trigger] text[i] != LINE_FEED,
    ensures
        strip_newlines(text) == text,
    decreases text.len(),
{
    reveal(Seq::filter);
    if text.len() > 0 {
        lemma_strip_keeps(text.drop_last());
        assert(text.drop_last().push(text.last()) =~= text);
    }
}

/// Nothing is left of a separator.
pub proof fn lemma_strip_separator(index: int, width: u32)
    ensures
        strip_newlines(separator(index, width)) == Seq::<u8>::empty(),
{
    reveal(Seq::filter);
    let gap = separator(index, width);
    if gap.len() > 0 {
        assert(gap.drop_last() =~= Seq::<u8>::empty());
        assert(gap.drop_last().filter(not_line_feed()) =~= Seq::<u8>::empty());
    }
}

/// Taking the line feeds out of a container's text leaves the token stream
/// of its pixels.
pub proof fn lemma_strip_payload(pixels: Seq<Pixel>, width: u32)
    ensures
        strip_newlines(payload(pixels, width)) == token_stream(pixels),
    decreases pixels.len(),
{
    if pixels.len() == 0 {
        lemma_strip_keeps(payload(pixels, width));
    } else {
        let front = pixels.drop_last();
        let last = pixels.last();
        let token = token_of(last.r, last.g, last.b);
        let gap = separator(pixels.len() - 1, width);
        lemma_strip_payload(front, width);
        lemma_token_round_trip(last.r, last.g, last.b);
        lemma_strip_keeps(token);
        lemma_strip_separator(pixels.len() - 1, width);
        lemma_strip_concat(payload(front, width), gap);
        lemma_strip_concat(payload(front, width) + gap, token);
    }
}

/// Decoding the container of an image gives the image back: the same
/// dimensions and, pixel for pixel, the same red, green and blue. Alpha is not
/// stored, so every pixel comes back at full opacity.
pub proof fn lemma_round_trip(image: Raster)
    requires
        image.well_formed(),
    ensures
        decoded(container_of(image)) == Ok::<Raster, CodecError>(image.opaque()),
{
    let header = header_bytes(image.width, image.height);
    let text = payload(image.pixels, image.width);
    let container = container_of(image);
    let stream = token_stream(image.pixels);
    let count = image.width * image.height;
    lemma_header_round_trip(image.width, image.height);
    assert(container.subrange(0, 4) =~= header.subrange(0, 4));
    assert(container.subrange(4, 8) =~= header.subrange(4, 8));
    assert(header_dims(container) == (image.width, image.height));
    assert(container.skip(8) =~= text);
    lemma_strip_payload(image.pixels, image.width);
    lemma_token_stream(image.pixels);
    lemma_ascii_text(stream);
    assert(all_tokens(stream, count)) by {
        assert forall|i: int| 0 <= i < count implies is_token(#[trigger] token_at(stream, i)) by {
            let p = image.pixels[i];
            lemma_token_round_trip(p.r, p.g, p.b);
        }
    }
    assert(token_pixels(stream, count) =~= image.opaque().pixels) by {
        assert forall|i: int| 0 <= i < count implies token_pixels(stream, count)[i]
            == image.pixels[i].opaque() by {
            let p = image.pixels[i];
            lemma_token_round_trip(p.r, p.g, p.b);
        }
    }
}

/// A container whose text, line feeds removed, is valid UTF-8 but does not
/// split into exactly width times height runs of six bytes is refused with
/// `TokenLengthError`.
pub proof fn lemma_token_tiling(container: Seq<u8>)
    requires
        container.len() >= 8,
        valid_utf8(strip_newlines(container.skip(8))),
        strip_newlines(container.skip(8)).len() % 6 != 0 || strip_newlines(
            container.skip(8),
        ).len() / 6 != header_dims(container).0 * header_dims(container).1,
    ensures
        decoded(container) == Err::<Raster, CodecError>(CodecError::TokenLengthError),
{
}

/// A container that has its header and whose text is valid UTF-8 and splits
/// into width times height runs of six bytes is refused with
/// `ColorParseError` as soon as one run is not six hexadecimal digits.
pub proof fn lemma_malformed_token(container: Seq<u8>, index: int)
    requires
        container.len() >= 8,
        valid_utf8(strip_newlines(container.skip(8))),
        strip_newlines(container.skip(8)).len() % 6 == 0,
        strip_newlines(container.skip(8)).len() / 6 == header_dims(container).0 * header_dims(
            container,
        ).1,
        0 <= index < header_dims(container).0 * header_dims(container).1,
        !is_token(token_at(strip_newlines(container.skip(8)), index)),
    ensures
        decoded(container) == Err::<Raster, CodecError>(CodecError::ColorParseError),
{
}

/// The text of row `y`: the tokens of its pixels, left to right.
pub open spec fn row_text(image: Raster, y: int) -> Seq<u8> {
    token_stream(image.pixels.subrange(y * image.width, (y + 1) * image.width))
}

/// The first `rows` rows of an image as lines of text: a line feed between
/// one row and the next, none after the last.
pub open spec fn rows_text(image: Raster, rows: nat) -> Seq<u8>
    decreases rows,
{
    if rows == 0 {
        Seq::empty()
    } else if rows == 1 {
        row_text(image, 0)
    } else {
        rows_text(image, (rows - 1) as nat) + seq![LINE_FEED] + row_text(image, rows - 1)
    }
}

/// Writing up to one more row after whole rows adds the separator of the
/// row's first pixel and then the row's tokens.
proof fn lemma_payload_extend(pixels: Seq<Pixel>, width: u32, start: int, k: int)
    requires
        width > 0,
        0 <= start,
        start % (width as int) == 0,
        1 <= k <= width,
        start + k <= pixels.len(),
    ensures
        payload(pixels.subrange(0, start + k), width) == payload(pixels.subrange(0, start), width)
            + separator(start, width) + token_stream(pixels.subrange(start, start + k)),
    decreases k,
{
    let whole = pixels.subrange(0, start + k);
    let row = pixels.subrange(start, start + k);
    assert(whole.last() == row.last());
    assert(whole.drop_last() =~= pixels.subrange(0, start + k - 1));
    assert(row.drop_last() =~= pixels.subrange(start, start + k - 1));
    if k == 1 {
        assert(token_stream(row.drop_last()) =~= Seq::<u8>::empty());
        assert(payload(whole, width) =~= payload(pixels.subrange(0, start), width) + separator(
            start,
            width,
        ) + token_stream(row));
    } else {
        lemma_payload_extend(pixels, width, start, k - 1);
        lemma_fundamental_div_mod(start, width as int);
        lemma_fundamental_div_mod_converse(
            start + k - 1,
            width as int,
            start / (width as int),
            k - 1,
        );
        assert(separator(start + k - 1, width) =~= Seq::<u8>::empty());
        assert(payload(whole, width) =~= payload(pixels.subrange(0, start), width) + separator(
            start,
            width,
        ) + token_stream(row));
    }
}

/// The text of the first `rows` rows is those rows as lines.
proof fn lemma_payload_rows_up_to(image: Raster, rows: nat)
    requires
        image.well_formed(),
        image.width > 0,
        rows <= image.height,
    ensures
        payload(image.pixels.subrange(0, rows * image.width), image.width) == rows_text(
            image,
            rows,
        ),
    decreases rows,
{
    let width = image.width;
    if rows == 0 {
        assert(rows * width == 0) by (nonlinear_arith)
            requires
                rows == 0,
        ;
        assert(image.pixels.subrange(0, rows * width) =~= Seq::<Pixel>::empty());
    } else {
        let start = (rows - 1) * width;
        lemma_payload_rows_up_to(image, (rows - 1) as nat);
        lemma_mod_multiples_basic(rows - 1, width as int);
        assert(0 <= start && start + width == rows * width && rows * width <= image.height * width
            && (rows > 1 ==> start > 0)) by (nonlinear_arith)
            requires
                start == (rows - 1) * width,
                1 <= rows <= image.height,
                width > 0,
        ;
        assert(image.height * width == width * image.height) by (nonlinear_arith);
        lemma_payload_extend(image.pixels, width, start, width as int);
        if rows == 1 {
            assert(image.pixels.subrange(0, start) =~= Seq::<Pixel>::empty());
            assert(payload(image.pixels.subrange(0, start), width) =~= Seq::<u8>::empty());
            assert(separator(start, width) =~= Seq::<u8>::empty());
            assert(payload(image.pixels.subrange(0, rows * width), width) =~= row_text(image, 0));
        }
    }
}

/// The text of a container is one line per row of the image, each line the
/// row's tokens with nothing between them, the lines separated by a single
/// line feed and no line feed at the end. (A row without pixels has no
/// line: an image of width zero has an empty text.)
pub proof fn lemma_payload_rows(image: Raster)
    requires
        image.well_formed(),
        image.width > 0,
    ensures
        payload(image.pixels, image.width) == rows_text(image, image.height as nat),
{
    lemma_payload_rows_up_to(image, image.height as nat);
    assert(image.height * image.width == image.width * image.height) by (nonlinear_arith);
    assert(image.pixels.subrange(0, image.height * image.width) =~= image.pixels);
}

/// Pixel `i` of an image, counted in row-major order, lies in column
/// `i mod width` of row `i / width`.
pub proof fn lemma_pixel_position(image: Raster, index: int)
    requires
        image.well_formed(),
        0 <= index < image.pixels.len(),
    ensures
        image.width > 0,
        0 <= image.column_of(index) < image.width,
        0 <= image.row_of(index) < image.height,
        image.at(image.column_of(index), image.row_of(index)) == image.pixels[index],
{
    lemma_row_major(image.width, image.height, index);
}

} // verus!
