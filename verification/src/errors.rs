//! The error taxonomy shared by the signing, verification, key-loading and
//! codec operations. A failed verification that is due to a mismatched tag is
//! not an error: it is a successful computation yielding `false`. Only
//! structural problems (wrong lengths, bad encodings, missing entropy) are
//! reported through this type.

use vstd::prelude::*;

verus! {

/// Why an operation could not be attempted.
#[derive(Debug, Clone, Copy, PartialEq, Eq, Structural)]
pub enum TextError {
    /// The supplied key material is shorter than the algorithm requires.
    KeyFormatError,
    /// The key bytes have the right length but are not a valid key.
    InvalidKeyError,
    /// The supplied tag is not the exact byte length the algorithm requires.
    SignatureFormatError,
    /// The supplied tag text is not valid encoded text.
    TagDecodeError,
    /// The entropy source was unavailable during key generation.
    GenerationError,
    /// The requested algorithm token names no known algorithm.
    UnsupportedAlgorithmError,
}

impl TextError {
    /// A short description of the error, suitable for display.
    pub fn message(&self) -> (r: &'static str)
        ensures
            *self is KeyFormatError ==> r@ == "key material is too short"@,
            *self is InvalidKeyError ==> r@ == "key bytes are not a valid key"@,
            *self is SignatureFormatError ==> r@ == "tag has the wrong byte length"@,
            *self is TagDecodeError ==> r@ == "tag text is not valid encoded text"@,
            *self is GenerationError ==> r@ == "entropy source unavailable"@,
            *self is UnsupportedAlgorithmError ==> r@ == "unknown algorithm"@,
    {
        match self {
            TextError::KeyFormatError => "key material is too short",
            TextError::InvalidKeyError => "key bytes are not a valid key",
            TextError::SignatureFormatError => "tag has the wrong byte length",
            TextError::TagDecodeError => "tag text is not valid encoded text",
            TextError::GenerationError => "entropy source unavailable",
            TextError::UnsupportedAlgorithmError => "unknown algorithm",
        }
    }
}

} // verus!
