//! A codec between raster images and a textual pixel-dump container.
//!
//! A container is an eight byte header (width, then height, each an unsigned
//! 32-bit integer in the byte order of the machine) followed by text: one line
//! per image row, each line the row's pixels written as six hexadecimal digits
//! (`rrggbb`), lines separated by a single line feed.
//!
//! Every function here works on values in memory. Reading and writing files,
//! loading and storing picture formats and showing a preview are left to the
//! program built around this library.

pub mod decoder;
pub mod encoder;
pub mod error;
pub mod header;
pub mod image;
pub mod laws;
pub mod text;
pub mod token;
