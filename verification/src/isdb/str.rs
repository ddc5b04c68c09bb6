//! ARIB STD-B24 eight-unit coded character strings, held undecoded.

use vstd::prelude::*;

verus! {

/// A borrowed, undecoded ARIB 8-unit character string.
#[derive(Debug, Clone, Copy, PartialEq, Eq)]
pub struct AribStr<'a> {
    bytes: &'a [u8],
}

impl<'a> View for AribStr<'a> {
    type V = Seq<u8>;

    closed spec fn view(&self) -> Seq<u8> {
        self.bytes@
    }
}

impl<'a> AribStr<'a> {
    /// Wraps the encoded bytes of a string.
    pub fn from_bytes(bytes: &'a [u8]) -> (r: AribStr<'a>)
        ensures
            r@ == bytes@,
    {
        AribStr { bytes }
    }

    /// The encoded bytes.
    pub fn as_bytes(&self) -> (r: &'a [u8])
        ensures
            r@ == self@,
    {
        self.bytes
    }

    /// The number of encoded bytes.
    pub fn len(&self) -> (r: usize)
        ensures
            r == self@.len(),
    {
        self.bytes.len()
    }

    /// Whether the string holds no bytes.
    pub fn is_empty(&self) -> (r: bool)
        ensures
            r == (self@.len() == 0),
    {
        self.bytes.len() == 0
    }
}

} // verus!
