//! The CRC-32 of MPEG-2 sections (polynomial 0x04C11DB7, initial value
//! 0xFFFFFFFF, most significant bit first, no final inversion).

use vstd::prelude::*;

verus! {

/// The CRC register after `n` more shifts of `c` through the polynomial.
pub open spec fn crc_shifts(c: u32, n: nat) -> u32
    decreases n,
{
    if n == 0 {
        c
    } else {
        let next: u32 = if c & 0x8000_0000 != 0 {
            ((c << 1u32) ^ 0x04C1_1DB7u32) as u32
        } else {
            (c << 1u32) as u32
        };
        crc_shifts(next, (n - 1) as nat)
    }
}

/// The CRC register after feeding the byte `b` to the register `c`.
pub open spec fn crc_byte(c: u32, b: u8) -> u32 {
    crc_shifts(c ^ ((b as u32) << 24u32), 8)
}

/// The CRC-32 of `s`.
pub open spec fn crc32_of(s: Seq<u8>) -> u32
    decreases s.len(),
{
    if s.len() == 0 {
        0xFFFF_FFFF
    } else {
        crc_byte(crc32_of(s.drop_last()), s.last())
    }
}

/// Computes the CRC-32 of `data`.
pub fn crc32(data: &[u8]) -> (r: u32)
    ensures
        r == crc32_of(data@),
{
    let mut c: u32 = 0xFFFF_FFFF;
    let mut i: usize = 0;
    while i < data.len()
        invariant
            i <= data@.len(),
            c == crc32_of(data@.subrange(0, i as int)),
        decreases data@.len() - i,
    {
        let ghost start = c ^ ((data@[i as int] as u32) << 24u32);
        let mut r: u32 = c ^ ((data[i] as u32) << 24);
        let mut k: u32 = 0;
        while k < 8
            invariant
                k <= 8,
                crc_shifts(r, (8 - k) as nat) == crc_shifts(start, 8),
            decreases 8 - k,
        {
            if r & 0x8000_0000 != 0 {
                r = (r << 1) ^ 0x04C1_1DB7;
            } else {
                r = r << 1;
            }
            k = k + 1;
        }
        proof {
            assert(data@.subrange(0, i + 1).drop_last() =~= data@.subrange(0, i as int));
        }
        c = r;
        i = i + 1;
    }
    assert(data@.subrange(0, data@.len() as int) =~= data@);
    c
}

/// Whether the CRC-32 over `data`, its trailing CRC included, is zero, which
/// holds of an intact section.
pub fn calc32(data: &[u8]) -> (r: bool)
    ensures
        r == (crc32_of(data@) == 0),
{
    crc32(data) == 0
}

/// The four bytes of `c`, most significant first.
pub open spec fn be32_bytes(c: u32) -> Seq<u8> {
    seq![(c >> 24u32) as u8, (c >> 16u32) as u8, (c >> 8u32) as u8, c as u8]
}

proof fn lemma_crc_push(s: Seq<u8>, b: u8)
    ensures
        crc32_of(s.push(b)) == crc_byte(crc32_of(s), b),
{
    assert(s.push(b).drop_last() =~= s);
}

/// Shifting a register whose top `n` bits are clear never feeds the
/// polynomial.
proof fn lemma_shifts_clear(x: u32, n: u32)
    requires
        n <= 8,
        x & (0xFFFF_FFFFu32 << ((32 - n) as u32)) == 0,
    ensures
        crc_shifts(x, n as nat) == x << n,
    decreases n,
{
    if n > 0 {
        assert(x & 0x8000_0000 == 0 && (x << 1u32) & (0xFFFF_FFFFu32 << ((32 - (n - 1)) as u32)) == 0
            && (x << 1u32) << ((n - 1) as u32) == x << n) by (bit_vector)
            requires
                1 <= n <= 8,
                x & (0xFFFF_FFFFu32 << ((32 - n) as u32)) == 0,
        ;
        lemma_shifts_clear(x << 1u32, (n - 1) as u32);
        assert(crc_shifts(x, n as nat) == crc_shifts(x << 1u32, (n - 1) as nat));
    } else {
        assert(x << 0u32 == x) by (bit_vector);
    }
}

/// Feeding a register its own top byte shifts it by a byte.
proof fn lemma_crc_own_byte(c: u32)
    ensures
        crc_byte(c, (c >> 24u32) as u8) == c << 8u32,
{
    let x = c ^ ((((c >> 24u32) as u8) as u32) << 24u32);
    assert(x & (0xFFFF_FFFFu32 << 24u32) == 0 && x << 8u32 == c << 8u32) by (bit_vector)
        requires
            x == c ^ ((((c >> 24u32) as u8) as u32) << 24u32),
    ;
    lemma_shifts_clear(x, 8);
}

/// Appending the CRC-32 of a byte string to it, most significant byte first,
/// gives a byte string whose CRC-32 is zero: the check of [`calc32`] passes
/// on every section that carries the CRC of its other bytes.
pub proof fn law_crc_of_appended_crc(s: Seq<u8>)
    ensures
        crc32_of(s + be32_bytes(crc32_of(s))) == 0,
{
    let c = crc32_of(s);
    let b = be32_bytes(c);
    let s1 = s.push(b[0]);
    let s2 = s1.push(b[1]);
    let s3 = s2.push(b[2]);
    let s4 = s3.push(b[3]);
    assert(s4 =~= s + b);
    lemma_crc_push(s, b[0]);
    lemma_crc_push(s1, b[1]);
    lemma_crc_push(s2, b[2]);
    lemma_crc_push(s3, b[3]);
    let c1 = c << 8u32;
    let c2 = c1 << 8u32;
    let c3 = c2 << 8u32;
    assert((c1 >> 24u32) as u8 == (c >> 16u32) as u8 && (c2 >> 24u32) as u8 == (c >> 8u32) as u8
        && (c3 >> 24u32) as u8 == c as u8 && c3 << 8u32 == 0) by (bit_vector)
        requires
            c1 == c << 8u32,
            c2 == c1 << 8u32,
            c3 == c2 << 8u32,
    ;
    lemma_crc_own_byte(c);
    lemma_crc_own_byte(c1);
    lemma_crc_own_byte(c2);
    lemma_crc_own_byte(c3);
}

} // verus!
