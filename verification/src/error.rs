//! The ways in which encoding or decoding can fail.

use vstd::prelude::*;
use vstd::string::*;

verus! {

/// Why an encode or decode call did not complete. Every error ends the call:
/// nothing is recovered and no partial result is handed out.
#[derive(Clone, Copy, Debug, PartialEq, Eq, Structural)]
pub enum CodecError {
    /// The source picture is missing or cannot be decoded.
    ImageReadError,
    /// The destination of the container cannot be written.
    ContainerWriteError,
    /// The container is missing or cannot be read.
    ContainerReadError,
    /// The text after the header is not valid UTF-8.
    EncodingError,
    /// The text does not split into six-character tokens, or the number of
    /// tokens is not width times height.
    TokenLengthError,
    /// A token holds a character that is not a hexadecimal digit.
    ColorParseError,
    /// The container is shorter than its header.
    HeaderError,
}

impl CodecError {
    /// The message that tells the user which stage failed.
    pub open spec fn message_text(self) -> Seq<char> {
        match self {
            CodecError::ImageReadError => "Rust RIFF error: Couldn't read the PNG!"@,
            CodecError::ContainerWriteError => "Rust RIFF error: Couldn't write to the Rust RIFF file!"@,
            CodecError::ContainerReadError => "Rust RIFF error: Couldn't find the Rust RIFF file!"@,
            CodecError::EncodingError => "Rust RIFF error: An invalid UTF-8 sequence was found in the Rust RIFF file!"@,
            CodecError::TokenLengthError => "Rust RIFF error: The Rust RIFF file doesn't hold one six-digit color for each pixel!"@,
            CodecError::ColorParseError => "Rust RIFF error: Couldn't convert hex color to RGB color!"@,
            CodecError::HeaderError => "Rust RIFF error: The Rust RIFF file is shorter than its header!"@,
        }
    }

    /// Describes the error for the user.
    pub fn message(&self) -> (text: String)
        ensures
            text@ == self.message_text(),
    {
        match self {
            CodecError::ImageReadError => String::from_str("Rust RIFF error: Couldn't read the PNG!"),
            CodecError::ContainerWriteError => String::from_str(
                "Rust RIFF error: Couldn't write to the Rust RIFF file!",
            ),
            CodecError::ContainerReadError => String::from_str(
                "Rust RIFF error: Couldn't find the Rust RIFF file!",
            ),
            CodecError::EncodingError => String::from_str(
                "Rust RIFF error: An invalid UTF-8 sequence was found in the Rust RIFF file!",
            ),
            CodecError::TokenLengthError => String::from_str(
                "Rust RIFF error: The Rust RIFF file doesn't hold one six-digit color for each pixel!",
            ),
            CodecError::ColorParseError => String::from_str(
                "Rust RIFF error: Couldn't convert hex color to RGB color!",
            ),
            CodecError::HeaderError => String::from_str(
                "Rust RIFF error: The Rust RIFF file is shorter than its header!",
            ),
        }
    }
}

} // verus!
