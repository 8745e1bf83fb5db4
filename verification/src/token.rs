//! Colour tokens: six hexadecimal digits, two each for red, green and blue.
//!
//! Writing a token is left to `colors_transform` and reading one to
//! `css_color_parser`; what this module proves, it proves from the contracts
//! given to those two calls below.

use vstd::prelude::*;
use vstd::string::*;
use vstd::utf8::*;

use crate::error::CodecError;
use crate::image::Pixel;
use crate::text::{ascii_chars, lemma_ascii_text};

verus! {

/// The lowercase hexadecimal digit for a value below sixteen, as an ASCII byte.
pub open spec fn hex_digit(value: int) -> u8
    recommends
        0 <= value < 16,
{
    if value < 10 {
        (48 + value) as u8
    } else {
        (87 + value) as u8
    }
}

/// The two digits of a channel, high digit first.
pub open spec fn hex_pair(channel: u8) -> Seq<u8> {
    seq![hex_digit(channel as int / 16), hex_digit(channel as int % 16)]
}

/// The token of a colour: `rrggbb`, in lowercase.
pub open spec fn token_of(r: u8, g: u8, b: u8) -> Seq<u8> {
    hex_pair(r) + hex_pair(g) + hex_pair(b)
}

/// True of the ASCII digits `0` to `9` and the letters `a` to `f` in either case.
pub open spec fn is_hex_digit(c: u8) -> bool {
    (48 <= c <= 57) || (65 <= c <= 70) || (97 <= c <= 102)
}

/// The value of a hexadecimal digit.
pub open spec fn digit_value(c: u8) -> int
    recommends
        is_hex_digit(c),
{
    if c <= 57 {
        c - 48
    } else if c <= 70 {
        c - 55
    } else {
        c - 87
    }
}

/// True of exactly six hexadecimal digits.
pub open spec fn is_token(token: Seq<u8>) -> bool {
    token.len() == 6 && forall|i: int| 0 <= i < 6 ==> is_hex_digit(#[trigger] token[i])
}

/// The channel that two digits stand for.
pub open spec fn pair_value(high: u8, low: u8) -> u8 {
    (16 * digit_value(high) + digit_value(low)) as u8
}

/// The red, green and blue channels that a token stands for.
pub open spec fn token_rgb(token: Seq<u8>) -> (u8, u8, u8)
    recommends
        is_token(token),
{
    (
        pair_value(token[0], token[1]),
        pair_value(token[2], token[3]),
        pair_value(token[4], token[5]),
    )
}

/// The pixel that a token stands for: its colour at full opacity.
pub open spec fn token_pixel(token: Seq<u8>) -> Pixel
    recommends
        is_token(token),
{
    let (r, g, b) = token_rgb(token);
    Pixel { r, g, b, a: 255 }
}

/// What parsing six bytes as a token yields.
pub open spec fn parsed_token(token: Seq<u8>) -> Result<Pixel, CodecError> {
    if is_token(token) {
        Ok(token_pixel(token))
    } else {
        Err(CodecError::ColorParseError)
    }
}

/// The number sign that opens a colour in CSS notation.
pub const NUMBER_SIGN: u8 = 35;

/// The CSS notation of a token: a number sign, then the six digits.
pub open spec fn css_hex(token: Seq<u8>) -> Seq<char> {
    seq!['#'] + ascii_chars(token)
}

/// Calls `colors_transform::Rgb::from` and `Rgb::to_css_hex_string`. For
/// whole-numbered channels from 0 to 255 the string is a number sign followed
/// by each channel as two lowercase hexadecimal digits.
#[verifier::external_body]
fn css_hex_string(r: u8, g: u8, b: u8) -> (text: String)
    ensures
        text@ == css_hex(token_of(r, g, b)),
{
    colors_transform::Rgb::from(r.into(), g.into(), b.into()).to_css_hex_string()
}

/// The digits of a token in CSS notation, as bytes: every character after the
/// first.
pub open spec fn css_digits(text: Seq<char>) -> Seq<u8> {
    Seq::new((text.len() - 1) as nat, |i: int| text[i + 1] as u8)
}

/// Calls `str::parse` for `css_color_parser::Color`. For a number sign
/// followed by six hexadecimal digits the parser succeeds and reads the digits
/// pairwise as red, green and blue.
#[verifier::external_body]
fn css_parse(text: &str) -> (rgb: Option<(u8, u8, u8)>)
    requires
        is_token(css_digits(text@)),
        text@ == css_hex(css_digits(text@)),
    ensures
        rgb == Some(token_rgb(css_digits(text@))),
{
    match text.parse::<css_color_parser::Color>() {
        Ok(color) => Some((color.r, color.g, color.b)),
        Err(_) => None,
    }
}

/// The token of a colour is a token, and stands for that colour.
pub proof fn lemma_token_round_trip(r: u8, g: u8, b: u8)
    ensures
        is_token(token_of(r, g, b)),
        token_rgb(token_of(r, g, b)) == (r, g, b),
{
}

/// Writes a colour as a token.
pub fn pixel_token(r: u8, g: u8, b: u8) -> (token: Vec<u8>)
    ensures
        token@ == token_of(r, g, b),
{
    let text = css_hex_string(r, g, b);
    // The token is the string without its number sign.
    let bytes = text.as_str().as_bytes();
    proof {
        lemma_token_round_trip(r, g, b);
        let digits = token_of(r, g, b);
        assert(css_hex(digits) =~= ascii_chars(seq![NUMBER_SIGN] + digits));
        lemma_ascii_text(seq![NUMBER_SIGN] + digits);
    }
    let mut token: Vec<u8> = Vec::new();
    let mut i: usize = 1;
    while i < bytes.len()
        invariant
            1 <= i <= bytes@.len(),
            bytes@ == seq![NUMBER_SIGN] + token_of(r, g, b),
            token@ == token_of(r, g, b).subrange(0, i - 1),
        decreases bytes@.len() - i,
    {
        token.push(bytes[i]);
        i += 1;
        assert(token@ =~= token_of(r, g, b).subrange(0, i - 1));
    }
    assert(token@ =~= token_of(r, g, b));
    token
}

/// Reads six bytes as a token: the pixel it stands for, or `ColorParseError`
/// where the bytes are not six hexadecimal digits.
pub fn parse_token(token: &[u8]) -> (pixel: Result<Pixel, CodecError>)
    ensures
        pixel == parsed_token(token@),
{
    if !all_hex_digits(token) {
        return Err(CodecError::ColorParseError);
    }
    proof {
        lemma_ascii_text(token@);
    }
    let digits = match core::str::from_utf8(token) {
        Ok(digits) => digits,
        // Not reached: hexadecimal digits are ASCII.
        Err(_) => { return Err(CodecError::EncodingError); },
    };
    let mut hex = String::from_str("#");
    hex.append(digits);
    proof {
        reveal_strlit("#");
        encode_utf8_decode_utf8(digits@);
        assert("#"@ =~= seq!['#']);
        assert(css_digits(hex@) =~= token@);
    }
    match css_parse(hex.as_str()) {
        Some((r, g, b)) => Ok(Pixel { r, g, b, a: 255 }),
        // Not reached: the parser takes every token.
        None => Err(CodecError::ColorParseError),
    }
}

/// Tells whether the bytes are six hexadecimal digits.
fn all_hex_digits(token: &[u8]) -> (yes: bool)
    ensures
        yes == is_token(token@),
{
    if token.len() != 6 {
        return false;
    }
    let mut i: usize = 0;
    while i < 6
        invariant
            i <= 6,
            token@.len() == 6,
            forall|k: int| 0 <= k < i ==> is_hex_digit(#[trigger] token@[k]),
        decreases 6 - i,
    {
        let c = token[i];
        let digit = (48 <= c && c <= 57) || (65 <= c && c <= 70) || (97 <= c && c <= 102);
        if !digit {
            return false;
        }
        i += 1;
    }
    true
}

} // verus!
