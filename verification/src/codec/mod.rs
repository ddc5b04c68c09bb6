//! Audio and video codec headers.

pub mod audio;
pub mod video;

use vstd::prelude::*;

use crate::isdb::time::{decimal_text, write_decimal};

verus! {

/// A rational number.
#[derive(Debug, Clone, Copy, PartialEq, Eq, Hash)]
pub struct Rational<T> {
    /// The numerator.
    pub numerator: T,
    /// The denominator.
    pub denominator: T,
}

impl<T> Rational<T> {
    /// A rational number from its numerator and denominator.
    pub fn new(numerator: T, denominator: T) -> (r: Rational<T>)
        ensures
            r.numerator == numerator,
            r.denominator == denominator,
    {
        Rational { numerator, denominator }
    }
}

impl Rational<u32> {
    /// The number as `numerator/denominator`, in decimal.
    pub fn to_debug_string(&self) -> (r: String)
        ensures
            r@ == decimal_text(self.numerator as nat) + seq!['/'] + decimal_text(
                self.denominator as nat,
            ),
    {
        let mut s = String::new();
        write_decimal(&mut s, self.numerator as u64);
        s.append("/");
        proof {
            reveal_strlit("/");
        }
        write_decimal(&mut s, self.denominator as u64);
        s
    }
}

/// Whether `pat` occurs in `s` at index `i`.
pub open spec fn occurs_at(s: Seq<u8>, pat: Seq<u8>, i: int) -> bool {
    0 <= i && i + pat.len() <= s.len() && s.subrange(i, i + pat.len()) == pat
}

/// Whether `i` is the index of the first occurrence of `pat` in `s`.
pub open spec fn is_first_occurrence(s: Seq<u8>, pat: Seq<u8>, i: int) -> bool {
    occurs_at(s, pat, i) && forall|j: int| 0 <= j < i ==> !occurs_at(s, pat, j)
}

/// The index of the first occurrence of `pat` in `s`, if any.
pub open spec fn first_occurrence(s: Seq<u8>, pat: Seq<u8>) -> Option<int> {
    if exists|i: int| occurs_at(s, pat, i) {
        Some(choose|i: int| is_first_occurrence(s, pat, i))
    } else {
        None
    }
}

/// An occurrence of `pat` at `i` or before gives a first one.
proof fn lemma_first_exists(s: Seq<u8>, pat: Seq<u8>, i: int)
    requires
        occurs_at(s, pat, i),
    ensures
        exists|k: int| is_first_occurrence(s, pat, k),
    decreases i,
{
    if exists|j: int| 0 <= j < i && occurs_at(s, pat, j) {
        let j = choose|j: int| 0 <= j < i && occurs_at(s, pat, j);
        lemma_first_exists(s, pat, j);
    } else {
        assert(is_first_occurrence(s, pat, i));
    }
}

/// [`first_occurrence`] is the first occurrence, and `None` only when there
/// is none.
pub proof fn lemma_first_occurrence(s: Seq<u8>, pat: Seq<u8>)
    ensures
        match first_occurrence(s, pat) {
            Some(i) => is_first_occurrence(s, pat, i),
            None => forall|i: int| !occurs_at(s, pat, i),
        },
{
    if exists|i: int| occurs_at(s, pat, i) {
        let i = choose|i: int| occurs_at(s, pat, i);
        lemma_first_exists(s, pat, i);
    }
}

/// `memchr::memchr`: the index of the first byte of `haystack` equal to
/// `needle`, or `None` when there is none.
#[verifier::external_body]
pub(crate) fn find_byte(needle: u8, haystack: &[u8]) -> (r: Option<usize>)
    ensures
        r == match first_occurrence(haystack@, seq![needle]) {
            Some(i) => Some(i as usize),
            None => None::<usize>,
        },
{
    memchr::memchr(needle, haystack)
}

/// `memchr::memmem::find`: the index of the first occurrence of `needle` in
/// `haystack`, or `None` when there is none.
#[verifier::external_body]
pub(crate) fn find_bytes(haystack: &[u8], needle: &[u8]) -> (r: Option<usize>)
    ensures
        r == match first_occurrence(haystack@, needle@) {
            Some(i) => Some(i as usize),
            None => None::<usize>,
        },
{
    memchr::memmem::find(haystack, needle)
}

} // verus!
