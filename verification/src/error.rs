//! The ways in which building a symbol can fail.
use vstd::prelude::*;

verus! {

/// Reasons for which a stage of the pipeline rejects its input.
#[derive(Clone, Copy, Debug, PartialEq, Eq, Structural)]
pub enum QrError {
    /// The symbol size is out of range, the size does not offer the
    /// requested error correction level, or the size does not offer the
    /// requested encoding mode.
    UnsupportedConfiguration,
    /// The encoded bits do not fit into the symbol's data capacity.
    PayloadTooLarge,
    /// The payload holds a byte outside the alphabet of the encoding mode.
    IllegalCharacter,
    /// A Kanji payload has an odd number of bytes.
    OddKanjiLength,
    /// The data handed to the error correction stage does not have the
    /// length that the block schedule asks for.
    LengthMismatch,
    /// An internal consistency condition does not hold.
    InternalInvariantViolated,
}

impl QrError {
    /// The text that describes the error.
    pub open spec fn text(self) -> Seq<char> {
        match self {
            QrError::UnsupportedConfiguration => "unsupported symbol configuration"@,
            QrError::PayloadTooLarge => "payload too large for the symbol"@,
            QrError::IllegalCharacter => "illegal character for the encoding mode"@,
            QrError::OddKanjiLength => "odd number of bytes in Kanji payload"@,
            QrError::LengthMismatch => "data length does not match the block schedule"@,
            QrError::InternalInvariantViolated => "internal invariant violated"@,
        }
    }

    /// A short description of the error.
    pub fn message(&self) -> (s: String)
        ensures
            s@ == self.text(),
    {
        match self {
            QrError::UnsupportedConfiguration => "unsupported symbol configuration".to_owned(),
            QrError::PayloadTooLarge => "payload too large for the symbol".to_owned(),
            QrError::IllegalCharacter => "illegal character for the encoding mode".to_owned(),
            QrError::OddKanjiLength => "odd number of bytes in Kanji payload".to_owned(),
            QrError::LengthMismatch => "data length does not match the block schedule".to_owned(),
            QrError::InternalInvariantViolated => "internal invariant violated".to_owned(),
        }
    }
}

} // verus!
