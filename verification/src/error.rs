//! Error values of the codecs and of the pool.

use vstd::prelude::*;

verus! {

/// Why wire bytes could not be turned into a native value.
#[derive(Clone, Copy, Debug, PartialEq, Eq, Structural)]
pub enum DecodeError {
    /// The byte count differs from the fixed width of the type.
    Malformed,
    /// The bytes are well formed, but the native type cannot hold the value.
    OutOfRange,
}

/// Why a native value could not be turned into wire bytes.
#[derive(Clone, Copy, Debug, PartialEq, Eq, Structural)]
pub enum EncodeError {
    /// The value does not fit the width of its wire representation.
    OutOfRange,
}

impl DecodeError {
    /// A short description for diagnostics.
    pub fn message(&self) -> (s: &'static str)
        ensures
            s@ == match *self {
                DecodeError::Malformed => "unexpected length of value"@,
                DecodeError::OutOfRange => "value out of range for the native type"@,
            },
    {
        match self {
            DecodeError::Malformed => "unexpected length of value",
            DecodeError::OutOfRange => "value out of range for the native type",
        }
    }
}

impl EncodeError {
    /// A short description for diagnostics.
    pub fn message(&self) -> (s: &'static str)
        ensures
            s@ == "value out of range for the wire type"@,
    {
        "value out of range for the wire type"
    }
}

} // verus!
