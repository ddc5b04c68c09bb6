//! Byte-level reading helpers shared by the parsers.

use vstd::prelude::*;

verus! {

/// The big-endian 16-bit value stored at `s[i]`, `s[i + 1]`.
pub open spec fn be16(s: Seq<u8>, i: int) -> u16 {
    (s[i] as int * 256 + s[i + 1] as int) as u16
}

/// The big-endian 32-bit value stored at `s[i]` .. `s[i + 3]`.
pub open spec fn be32(s: Seq<u8>, i: int) -> u32 {
    (s[i] as int * 0x1000000 + s[i + 1] as int * 0x10000 + s[i + 2] as int * 0x100
        + s[i + 3] as int) as u32
}

/// The bytes of `s` from index `i` to its end.
pub open spec fn tail(s: Seq<u8>, i: int) -> Seq<u8> {
    s.subrange(i, s.len() as int)
}

/// The value of a two-digit binary coded decimal byte.
pub open spec fn bcd_digit(b: u8) -> u8 {
    ((b / 16) * 10 + b % 16) as u8
}

/// The value of the first `digits` binary-coded-decimal nibbles of `s`,
/// most significant nibble first.
pub open spec fn bcd(s: Seq<u8>, digits: nat) -> int
    decreases digits,
{
    if digits == 0 {
        0
    } else {
        let k = (digits - 1) as nat;
        let b = s[k as int / 2];
        let nibble = if k % 2 == 0 { b / 16 } else { b % 16 };
        bcd(s, k) * 10 + nibble
    }
}

/// Reads a big-endian 16-bit unsigned integer from the start of `data`.
pub fn read_be_16(data: &[u8]) -> (r: u16)
    requires
        data@.len() >= 2,
    ensures
        r == be16(data@, 0),
{
    data[0] as u16 * 256 + data[1] as u16
}

/// Reads a big-endian 32-bit unsigned integer from the start of `data`.
pub fn read_be_32(data: &[u8]) -> (r: u32)
    requires
        data@.len() >= 4,
    ensures
        r == be32(data@, 0),
{
    data[0] as u32 * 0x1000000 + data[1] as u32 * 0x10000 + data[2] as u32 * 0x100
        + data[3] as u32
}

/// Reads a big-endian 16-bit value at offset `i` of `data`.
pub fn be16_at(data: &[u8], i: usize) -> (r: u16)
    requires
        i + 2 <= data@.len(),
    ensures
        r == be16(data@, i as int),
{
    data[i] as u16 * 256 + data[i + 1] as u16
}

/// Reads a big-endian 32-bit value at offset `i` of `data`.
pub fn be32_at(data: &[u8], i: usize) -> (r: u32)
    requires
        i + 4 <= data@.len(),
    ensures
        r == be32(data@, i as int),
{
    data[i] as u32 * 0x1000000 + data[i + 1] as u32 * 0x10000 + data[i + 2] as u32 * 0x100
        + data[i + 3] as u32
}

/// Splits `data` at `mid`, or returns `None` when `data` is shorter than `mid`.
pub fn split_at_checked<'a>(data: &'a [u8], mid: usize) -> (r: Option<(&'a [u8], &'a [u8])>)
    ensures
        r is Some <==> mid <= data@.len(),
        r matches Some((a, b)) ==> a@ == data@.subrange(0, mid as int) && b@ == tail(
            data@,
            mid as int,
        ),
{
    if mid <= data.len() {
        Some(data.split_at(mid))
    } else {
        None
    }
}

/// The bytes of `data` from `i` to its end.
pub fn skip<'a>(data: &'a [u8], i: usize) -> (r: &'a [u8])
    requires
        i <= data@.len(),
    ensures
        r@ == tail(data@, i as int),
{
    &data[i..data.len()]
}

/// The value of a two-digit binary coded decimal byte.
pub fn read_bcd_digit(b: u8) -> (r: u8)
    ensures
        r == bcd_digit(b),
{
    (b / 16) * 10 + b % 16
}

/// Reads `digits` binary-coded-decimal nibbles from `data`, most significant first.
pub fn read_bcd(data: &[u8], digits: u8) -> (r: u32)
    requires
        digits <= 8,
        digits as int <= 2 * data@.len(),
    ensures
        r == bcd(data@, digits as nat),
{
    let mut v: u32 = 0;
    let mut k: u8 = 0;
    while k < digits
        invariant
            k <= digits <= 8,
            digits as int <= 2 * data@.len(),
            v == bcd(data@, k as nat),
            v + 2 <= 2 * pow10(k as nat),
        decreases digits - k,
    {
        let b = data[(k / 2) as usize];
        let nibble: u8 = if k % 2 == 0 { b / 16 } else { b % 16 };
        proof {
            lemma_pow10_step(k as nat);
            assert(pow10(k as nat) <= 10000000) by {
                lemma_pow10_mono(k as nat, 7);
                reveal_with_fuel(pow10, 8);
            }
        }
        v = v * 10 + nibble as u32;
        k = k + 1;
    }
    v
}

/// A value of `digits` binary-coded-decimal nibbles is below twice ten to the `digits`.
pub proof fn lemma_bcd_bound(s: Seq<u8>, digits: nat)
    requires
        digits as int <= 2 * s.len(),
    ensures
        0 <= bcd(s, digits),
        bcd(s, digits) + 2 <= 2 * pow10(digits),
    decreases digits,
{
    if digits > 0 {
        lemma_bcd_bound(s, (digits - 1) as nat);
    }
}

/// The number of seconds of the duration coded as binary coded decimal hours,
/// minutes and seconds in the three bytes at offset `i` of `s`.
pub open spec fn bcd_seconds(s: Seq<u8>, i: int) -> u32 {
    (bcd_digit(s[i]) as int * 3600 + bcd_digit(s[i + 1]) as int * 60 + bcd_digit(s[i + 2]) as int) as u32
}

/// Reads a duration coded as binary coded decimal hours, minutes and seconds
/// at offset `i` of `data`, in seconds.
pub fn read_bcd_second(data: &[u8], i: usize) -> (r: u32)
    requires
        i + 3 <= data@.len(),
    ensures
        r == bcd_seconds(data@, i as int),
{
    let _len = data.len();
    read_bcd_digit(data[i]) as u32 * 3600 + read_bcd_digit(data[i + 1]) as u32 * 60
        + read_bcd_digit(data[i + 2]) as u32
}

/// Ten to the power `n`.
pub open spec fn pow10(n: nat) -> nat
    decreases n,
{
    if n == 0 {
        1
    } else {
        10 * pow10((n - 1) as nat)
    }
}

proof fn lemma_pow10_step(n: nat)
    ensures
        pow10(n + 1) == 10 * pow10(n),
{
}

proof fn lemma_pow10_mono(a: nat, b: nat)
    requires
        a <= b,
    ensures
        pow10(a) <= pow10(b),
    decreases b,
{
    if a < b {
        lemma_pow10_mono(a, (b - 1) as nat);
    }
}

/// `String::push`: appends the character `c` to `s`.
#[verifier::external_body]
pub(crate) fn push_char(s: &mut String, c: char)
    ensures
        final(s)@ == old(s)@.push(c),
{
    s.push(c);
}

} // verus!
