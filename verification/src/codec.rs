//! The contract between a native type and its wire representation.

use vstd::prelude::*;
use crate::error::{DecodeError, EncodeError};

verus! {

/// A native value that can be written in the binary format of the backend `DB`.
pub trait Encode<DB> {
    /// The wire bytes of the value, or `None` where the value is outside the
    /// range of its wire representation.
    spec fn wire(&self) -> Option<Seq<u8>>;

    /// The fixed number of bytes that values of this type take on the wire.
    spec fn width() -> nat;

    /// Appends the wire bytes of the value to `buf`. A value without a wire
    /// form is refused and `buf` is left as it was.
    fn encode(&self, buf: &mut Vec<u8>) -> (r: Result<(), EncodeError>)
        ensures
            match self.wire() {
                Some(bytes) => r is Ok && final(buf)@ == old(buf)@ + bytes,
                None => r == Err::<(), EncodeError>(EncodeError::OutOfRange) && final(buf)@
                    == old(buf)@,
            },
    ;

    /// The number of bytes that `encode` appends.
    fn size_hint(&self) -> (n: usize)
        ensures
            n == Self::width(),
    ;

    /// A wire form always has the width of the type.
    proof fn lemma_wire_width(&self)
        ensures
            self.wire() matches Some(bytes) ==> bytes.len() == Self::width(),
    ;
}

/// A native value that can be read from the binary format of the backend `DB`.
pub trait Decode<DB>: Sized {
    /// What `raw` decodes to.
    spec fn parse(raw: Seq<u8>) -> Result<Self, DecodeError>;

    /// Reads one value from `raw`, which must hold exactly its wire bytes.
    fn decode(raw: &[u8]) -> (r: Result<Self, DecodeError>)
        ensures
            r == Self::parse(raw@),
    ;
}

} // verus!
