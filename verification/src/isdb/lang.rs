//! ISO 639 language codes.

use vstd::prelude::*;

verus! {

/// A three-letter ISO 639-2 language code.
#[derive(Debug, Clone, Copy, PartialEq, Eq)]
pub struct LangCode(pub [u8; 3]);

/// The language code made of `s[i]`, `s[i + 1]`, `s[i + 2]`.
pub open spec fn lang_at(s: Seq<u8>, i: int) -> Seq<u8> {
    s.subrange(i, i + 3)
}

impl LangCode {
    /// The code's three bytes.
    pub open spec fn bytes(self) -> Seq<u8> {
        self.0@
    }

    /// Reads a language code from the three bytes at offset `i` of `data`.
    pub fn read_at(data: &[u8], i: usize) -> (r: LangCode)
        requires
            i + 3 <= data@.len(),
        ensures
            r.bytes() == lang_at(data@, i as int),
    {
        let r = LangCode([data[i], data[i + 1], data[i + 2]]);
        assert(r.bytes() =~= lang_at(data@, i as int));
        r
    }
}

} // verus!
