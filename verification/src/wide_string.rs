//! NUL-terminated UTF-16 strings, as wide-character system interfaces take
//! them.

use vstd::prelude::*;

use crate::isdb::utils::push_char;

verus! {

/// Whether `u` is a high (leading) surrogate.
pub open spec fn is_high_surrogate(u: u16) -> bool {
    0xD800 <= u < 0xDC00
}

/// Whether `u` is a low (trailing) surrogate.
pub open spec fn is_low_surrogate(u: u16) -> bool {
    0xDC00 <= u < 0xE000
}

/// The UTF-16 code units of the character `c`: one below U+10000, else a
/// surrogate pair.
pub open spec fn utf16_units(c: char) -> Seq<u16> {
    let v = c as u32;
    if v < 0x10000 {
        seq![v as u16]
    } else {
        let u = (v - 0x10000) as u32;
        seq![(0xD800 + u / 0x400) as u16, (0xDC00 + u % 0x400) as u16]
    }
}

/// The UTF-16 encoding of the characters `cs`.
pub open spec fn utf16_of(cs: Seq<char>) -> Seq<u16>
    decreases cs.len(),
{
    if cs.len() == 0 {
        Seq::empty()
    } else {
        utf16_units(cs[0]) + utf16_of(cs.drop_first())
    }
}

/// The character of a surrogate pair.
pub open spec fn pair_char(hi: u16, lo: u16) -> char {
    (0x10000 + (hi - 0xD800) * 0x400 + (lo - 0xDC00)) as char
}

/// The characters that the UTF-16 code units `us` encode, or `None` when a
/// surrogate is unpaired.
pub open spec fn decode_utf16(us: Seq<u16>) -> Option<Seq<char>>
    decreases us.len(),
{
    if us.len() == 0 {
        Some(Seq::empty())
    } else if !is_high_surrogate(us[0]) && !is_low_surrogate(us[0]) {
        match decode_utf16(us.drop_first()) {
            Some(t) => Some(seq![us[0] as char] + t),
            None => None,
        }
    } else if is_high_surrogate(us[0]) && us.len() >= 2 && is_low_surrogate(us[1]) {
        match decode_utf16(us.subrange(2, us.len() as int)) {
            Some(t) => Some(seq![pair_char(us[0], us[1])] + t),
            None => None,
        }
    } else {
        None
    }
}

/// The code units of `us` before its first NUL.
pub open spec fn until_nul(us: Seq<u16>) -> Seq<u16>
    decreases us.len(),
{
    if us.len() == 0 || us[0] == 0 {
        Seq::empty()
    } else {
        seq![us[0]] + until_nul(us.drop_first())
    }
}

/// Encoding appended characters appends their encodings.
proof fn lemma_utf16_push(cs: Seq<char>, c: char)
    ensures
        utf16_of(cs.push(c)) == utf16_of(cs) + utf16_units(c),
    decreases cs.len(),
{
    if cs.len() > 0 {
        assert(cs.push(c).drop_first() =~= cs.drop_first().push(c));
        assert(cs.push(c)[0] == cs[0]);
        lemma_utf16_push(cs.drop_first(), c);
        assert(utf16_units(cs[0]) + (utf16_of(cs.drop_first()) + utf16_units(c)) =~= (
        utf16_units(cs[0]) + utf16_of(cs.drop_first())) + utf16_units(c));
    } else {
        assert(cs.push(c).drop_first() =~= Seq::<char>::empty());
        assert(cs.push(c)[0] == c);
        assert(utf16_of(Seq::<char>::empty()) =~= Seq::<u16>::empty());
        assert(utf16_of(cs) =~= Seq::<u16>::empty());
        assert(utf16_units(c) + Seq::<u16>::empty() =~= utf16_units(c));
        assert(Seq::<u16>::empty() + utf16_units(c) =~= utf16_units(c));
    }
}

/// The code units of a character are not NUL unless the character is.
proof fn lemma_units_nonzero(c: char)
    requires
        c != '\0',
    ensures
        forall|k: int| 0 <= k < utf16_units(c).len() ==> utf16_units(c)[k] != 0,
        utf16_units(c).len() == 1 ==> !is_high_surrogate(utf16_units(c)[0])
            && !is_low_surrogate(utf16_units(c)[0]),
{
    let v = c as u32;
    assert(v != 0);
    assert(v < 0xD800 || 0xE000 <= v <= 0x10FFFF);
}

/// The code units of a character decode back to it, before whatever
/// follows.
proof fn lemma_decode_units(c: char, rest: Seq<u16>)
    ensures
        decode_utf16(utf16_units(c) + rest) == match decode_utf16(rest) {
            Some(t) => Some(seq![c] + t),
            None => None::<Seq<char>>,
        },
{
    let v = c as u32;
    let us = utf16_units(c) + rest;
    assert(v < 0xD800 || 0xE000 <= v <= 0x10FFFF);
    if v < 0x10000 {
        assert(us.drop_first() =~= rest);
        assert((v as u16) as char == c);
    } else {
        let u = (v - 0x10000) as u32;
        let hi = (0xD800 + u / 0x400) as u16;
        let lo = (0xDC00 + u % 0x400) as u16;
        assert(u / 0x400 < 0x400 && u % 0x400 < 0x400 && u == (u / 0x400) * 0x400 + u % 0x400)
            by (nonlinear_arith)
            requires
                u < 0x100000,
        ;
        assert(us.subrange(2, us.len() as int) =~= rest);
        assert(pair_char(hi, lo) == c);
    }
}

/// Decoding the encoding of characters gives them back.
proof fn lemma_decode_encode(cs: Seq<char>)
    ensures
        decode_utf16(utf16_of(cs)) == Some(cs),
    decreases cs.len(),
{
    if cs.len() > 0 {
        lemma_decode_encode(cs.drop_first());
        lemma_decode_units(cs[0], utf16_of(cs.drop_first()));
        assert(seq![cs[0]] + cs.drop_first() =~= cs);
    }
}

/// NUL-free code units followed by a NUL are cut at that NUL.
proof fn lemma_until_nul(us: Seq<u16>)
    requires
        forall|k: int| 0 <= k < us.len() ==> us[k] != 0,
    ensures
        until_nul(us.push(0)) == us,
    decreases us.len(),
{
    if us.len() > 0 {
        assert(us.push(0).drop_first() =~= us.drop_first().push(0));
        lemma_until_nul(us.drop_first());
        assert(seq![us[0]] + us.drop_first() =~= us);
    }
}

/// Encoding NUL-free characters gives NUL-free code units.
proof fn lemma_encoding_nonzero(cs: Seq<char>)
    requires
        forall|k: int| 0 <= k < cs.len() ==> cs[k] != '\0',
    ensures
        forall|k: int| 0 <= k < utf16_of(cs).len() ==> utf16_of(cs)[k] != 0,
    decreases cs.len(),
{
    if cs.len() > 0 {
        lemma_encoding_nonzero(cs.drop_first());
        lemma_units_nonzero(cs[0]);
        let a = utf16_units(cs[0]);
        let b = utf16_of(cs.drop_first());
        assert forall|k: int| 0 <= k < (a + b).len() implies (a + b)[k] != 0 by {
            if k >= a.len() {
                assert((a + b)[k] == b[k - a.len()]);
            }
        }
    }
}

/// A NUL-terminated UTF-16 string.
#[derive(Debug, Clone, PartialEq, Eq, Hash)]
pub struct WideString {
    units: Vec<u16>,
}

impl View for WideString {
    type V = Seq<u16>;

    /// The code units, the terminating NUL included.
    closed spec fn view(&self) -> Seq<u16> {
        self.units@
    }
}

/// `char::from_u32`: the character of the code point `v`, or `None` for a
/// surrogate or a value past U+10FFFF.
#[verifier::external_body]
fn char_from_u32(v: u32) -> (r: Option<char>)
    ensures
        r == if v < 0xD800 || (0xE000 <= v <= 0x10FFFF) {
            Some(v as char)
        } else {
            None::<char>
        },
{
    char::from_u32(v)
}

impl WideString {
    /// Encodes `s` in UTF-16 and terminates it with a NUL.
    pub fn from_str(s: &str) -> (r: WideString)
        ensures
            r@ == utf16_of(s@).push(0),
    {
        broadcast use vstd::string::axiom_spec_iter;

        let mut out: Vec<u16> = Vec::new();
        for c in it: s.chars()
            invariant
                it.seq() == s@,
                out@ == utf16_of(s@.subrange(0, it.index())),
        {
            let v = c as u32;
            proof {
                assert(s@.subrange(0, it.index() + 1) =~= s@.subrange(0, it.index()).push(c));
                lemma_utf16_push(s@.subrange(0, it.index()), c);
            }
            if v < 0x10000 {
                out.push(v as u16);
            } else {
                let u = v - 0x10000;
                out.push((0xD800 + u / 0x400) as u16);
                out.push((0xDC00 + u % 0x400) as u16);
            }
        }
        assert(s@.subrange(0, s@.len() as int) =~= s@);
        out.push(0);
        WideString { units: out }
    }

    /// The code units, the terminating NUL included.
    pub fn as_slice(&self) -> (r: &[u16])
        ensures
            r@ == self@,
    {
        self.units.as_slice()
    }

    /// The text before the first NUL; every surrogate there must be paired.
    pub fn to_string(&self) -> (r: String)
        requires
            decode_utf16(until_nul(self@)) is Some,
        ensures
            r@ == decode_utf16(until_nul(self@)).unwrap(),
    {
        let us = self.units.as_slice();
        let mut n: usize = 0;
        proof {
            assert(us@.subrange(0, us@.len() as int) =~= us@);
            assert(us@.subrange(0, 0) + until_nul(us@) =~= until_nul(us@));
        }
        while n < us.len() && us[n] != 0
            invariant
                n <= us@.len(),
                until_nul(us@) == us@.subrange(0, n as int) + until_nul(us@.subrange(
                    n as int,
                    us@.len() as int,
                )),
            decreases us@.len() - n,
        {
            proof {
                let t = us@.subrange(n as int, us@.len() as int);
                assert(t.drop_first() =~= us@.subrange(n + 1, us@.len() as int));
                assert(us@.subrange(0, n + 1) =~= us@.subrange(0, n as int) + seq![us@[n as int]]);
            }
            n = n + 1;
        }
        let ghost w = us@.subrange(0, n as int);
        proof {
            assert(until_nul(us@.subrange(n as int, us@.len() as int)) =~= Seq::<u16>::empty());
            assert(w + Seq::<u16>::empty() =~= w);
        }
        let mut out = String::new();
        let mut i: usize = 0;
        proof {
            assert(w.subrange(0, n as int) =~= w);
            assert(until_nul(us@) =~= w);
            assert(out@ + decode_utf16(w).unwrap() =~= decode_utf16(w).unwrap());
        }
        while i < n
            invariant
                i <= n <= us@.len(),
                w == us@.subrange(0, n as int),
                decode_utf16(w) is Some,
                decode_utf16(w.subrange(i as int, n as int)) is Some,
                decode_utf16(w).unwrap() == out@ + decode_utf16(
                    w.subrange(i as int, n as int),
                ).unwrap(),
            decreases n - i,
        {
            let ghost rest = w.subrange(i as int, n as int);
            let u = us[i];
            if u < 0xD800 || u >= 0xE000 {
                proof {
                    assert(rest.drop_first() =~= w.subrange(i + 1, n as int));
                }
                match char_from_u32(u as u32) {
                    Some(c) => push_char(&mut out, c),
                    None => {},
                }
                i = i + 1;
            } else {
                let hi = u;
                let lo = us[i + 1];
                proof {
                    assert(rest.subrange(2, rest.len() as int) =~= w.subrange(i + 2, n as int));
                }
                let v = 0x10000 + (hi as u32 - 0xD800) * 0x400 + (lo as u32 - 0xDC00);
                match char_from_u32(v) {
                    Some(c) => push_char(&mut out, c),
                    None => {},
                }
                i = i + 2;
            }
        }
        out
    }
}

/// Encoding a text without NUL characters in a [`WideString`] and reading
/// the text back gives the same text.
pub proof fn law_wide_string_round_trip(cs: Seq<char>)
    requires
        forall|k: int| 0 <= k < cs.len() ==> cs[k] != '\0',
    ensures
        decode_utf16(until_nul(utf16_of(cs).push(0))) == Some(cs),
{
    lemma_encoding_nonzero(cs);
    lemma_until_nul(utf16_of(cs));
    lemma_decode_encode(cs);
}

} // verus!
