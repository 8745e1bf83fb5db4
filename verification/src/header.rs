//! The eight byte header of a container: width, then height.
//!
//! Both numbers are stored in the byte order of the machine that runs the
//! code. A container written on a machine of one byte order and read on a
//! machine of the other yields different dimensions; within one machine the
//! header round-trips, which `lemma_header_round_trip` states.

use vstd::endian::{endianness, Endian};
use vstd::prelude::*;
use vstd::slice::slice_subrange;

use crate::error::CodecError;

verus! {

/// Number of bytes the header occupies at the start of a container.
pub const HEADER_LEN: usize = 8;

/// The four bytes of `value`, least significant first.
pub open spec fn le_bytes(value: u32) -> Seq<u8> {
    seq![
        (value % 256) as u8,
        (value / 256 % 256) as u8,
        (value / 65536 % 256) as u8,
        (value / 16777216) as u8,
    ]
}

/// The number whose least significant byte is `bytes[0]`.
pub open spec fn le_value(bytes: Seq<u8>) -> int
    recommends
        bytes.len() == 4,
{
    bytes[0] + 256 * bytes[1] + 65536 * bytes[2] + 16777216 * bytes[3]
}

/// The four bytes of `value` as this machine lays them out in memory.
/// `endianness()` stands for the byte order of the machine that runs the code.
pub open spec fn native_bytes(value: u32) -> Seq<u8> {
    match endianness() {
        Endian::Little => le_bytes(value),
        Endian::Big => le_bytes(value).reverse(),
    }
}

/// The number that this machine reads from four bytes of memory.
pub open spec fn native_value(bytes: Seq<u8>) -> u32
    recommends
        bytes.len() == 4,
{
    match endianness() {
        Endian::Little => le_value(bytes) as u32,
        Endian::Big => le_value(bytes.reverse()) as u32,
    }
}

/// The header of an image of the given dimensions.
pub open spec fn header_bytes(width: u32, height: u32) -> Seq<u8> {
    native_bytes(width) + native_bytes(height)
}

/// The dimensions that the first eight bytes of `bytes` stand for.
pub open spec fn header_dims(bytes: Seq<u8>) -> (u32, u32)
    recommends
        bytes.len() >= 8,
{
    (native_value(bytes.subrange(0, 4)), native_value(bytes.subrange(4, 8)))
}

/// What reading the header of a container yields: the dimensions, or
/// `HeaderError` where the container has fewer than eight bytes.
pub open spec fn parse_header(bytes: Seq<u8>) -> Result<(u32, u32), CodecError> {
    if bytes.len() < 8 {
        Err(CodecError::HeaderError)
    } else {
        Ok(header_dims(bytes))
    }
}

/// Calls `u32::from_ne_bytes`, which reads the array as the machine would
/// read it from memory: least significant byte first on a little-endian
/// machine, most significant byte first on a big-endian one.
#[verifier::external_body]
fn from_native(bytes: [u8; 4]) -> (value: u32)
    ensures
        value == native_value(bytes@),
{
    u32::from_ne_bytes(bytes)
}

/// Calls `u32::to_ne_bytes`, which returns the memory representation of the
/// number in the byte order of the machine.
#[verifier::external_body]
fn to_native(value: u32) -> (bytes: [u8; 4])
    ensures
        bytes@ == native_bytes(value),
{
    value.to_ne_bytes()
}

/// Reads four bytes as an unsigned 32-bit integer in native byte order.
pub fn vec_to_u32_ne(bytes: &[u8]) -> (value: u32)
    requires
        bytes@.len() == 4,
    ensures
        value == native_value(bytes@),
{
    let word: [u8; 4] = [bytes[0], bytes[1], bytes[2], bytes[3]];
    assert(word@ =~= bytes@);
    from_native(word)
}

/// Writes the header of an image of the given dimensions.
pub fn encode_header(width: u32, height: u32) -> (out: Vec<u8>)
    ensures
        out@ == header_bytes(width, height),
{
    let mut out: Vec<u8> = Vec::new();
    let w = to_native(width);
    let h = to_native(height);
    out.extend_from_slice(w.as_slice());
    out.extend_from_slice(h.as_slice());
    out
}

/// Reads the dimensions from the first eight bytes of a container.
pub fn decode_header(bytes: &[u8]) -> (dims: Result<(u32, u32), CodecError>)
    ensures
        dims == parse_header(bytes@),
{
    if bytes.len() < HEADER_LEN {
        return Err(CodecError::HeaderError);
    }
    let width = vec_to_u32_ne(slice_subrange(bytes, 0, 4));
    let height = vec_to_u32_ne(slice_subrange(bytes, 4, 8));
    Ok((width, height))
}

/// Four bytes written from a number read back as that number, in either byte
/// order.
pub proof fn lemma_native_round_trip(value: u32)
    ensures
        native_bytes(value).len() == 4,
        native_value(native_bytes(value)) == value,
{
    let le = le_bytes(value);
    assert(le_value(le) == value);
    assert(le.reverse().reverse() =~= le);
}

/// A header read back gives the dimensions it was written from, for every
/// width and height.
pub proof fn lemma_header_round_trip(width: u32, height: u32)
    ensures
        header_bytes(width, height).len() == 8,
        parse_header(header_bytes(width, height)) == Ok::<(u32, u32), CodecError>((width, height)),
{
    lemma_native_round_trip(width);
    lemma_native_round_trip(height);
    let header = header_bytes(width, height);
    assert(header.subrange(0, 4) =~= native_bytes(width));
    assert(header.subrange(4, 8) =~= native_bytes(height));
}

} // verus!
