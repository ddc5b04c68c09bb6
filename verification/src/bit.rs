//! Reading a byte string bit by bit, most significant bit first.

use vstd::prelude::*;

verus! {

/// Two to the power `n`.
pub open spec fn two_pow(n: nat) -> nat
    decreases n,
{
    if n == 0 {
        1
    } else {
        2 * two_pow((n - 1) as nat)
    }
}

/// The bit at position `i` of `s`, position 0 being the most significant bit
/// of `s[0]`.
pub open spec fn bit_at(s: Seq<u8>, i: int) -> nat {
    ((s[i / 8] >> ((7 - i % 8) as u8)) & 1u8) as nat
}

/// The unsigned value of the `n` bits of `s` from position `start`, most
/// significant first.
pub open spec fn bits_at(s: Seq<u8>, start: nat, n: nat) -> nat
    decreases n,
{
    if n == 0 {
        0
    } else {
        bits_at(s, start, (n - 1) as nat) * 2 + bit_at(s, start + n - 1)
    }
}

/// Like [`bits_at`], but the positions at or past `limit` count as zero bits.
pub open spec fn bits_below(s: Seq<u8>, start: nat, n: nat, limit: nat) -> nat
    decreases n,
{
    if n == 0 {
        0
    } else {
        bits_below(s, start, (n - 1) as nat, limit) * 2 + if start + n - 1 < limit {
            bit_at(s, start + n - 1)
        } else {
            0
        }
    }
}

/// The number of bytes that [`BitReader::read`] loads to read `n` bits: one
/// for a single bit, two for up to 9 bits, four for more.
pub open spec fn read_unit(n: nat) -> nat {
    if n <= 1 {
        1
    } else if n <= 9 {
        2
    } else {
        4
    }
}

/// The number of bytes that [`BitReader::read_inside`] loads to read `n`
/// bits: the smallest of one, two and four bytes that holds `n` bits.
pub open spec fn inside_unit(n: nat) -> nat {
    if n <= 8 {
        1
    } else if n <= 16 {
        2
    } else {
        4
    }
}

/// Bits of `s` below the limit do not depend on the limit.
pub proof fn lemma_bits_below(s: Seq<u8>, start: nat, n: nat, limit: nat)
    requires
        start + n <= limit,
    ensures
        bits_below(s, start, n, limit) == bits_at(s, start, n),
    decreases n,
{
    if n > 0 {
        lemma_bits_below(s, start, (n - 1) as nat, limit);
    }
}

/// A value of `n` bits is below two to the `n`.
pub proof fn lemma_bits_bound(s: Seq<u8>, start: nat, n: nat, limit: nat)
    ensures
        bits_below(s, start, n, limit) < two_pow(n),
        bits_at(s, start, n) < two_pow(n),
    decreases n,
{
    if n > 0 {
        lemma_bits_bound(s, start, (n - 1) as nat, limit);
        let i = start + n - 1;
        let b: u8 = s[i / 8];
        let k: u8 = (7 - i % 8) as u8;
        assert((b >> k) & 1u8 <= 1) by (bit_vector);
    }
}

/// A reader of the bits of a byte string, most significant bit first.
#[derive(Debug)]
pub struct BitReader<'a> {
    buffer: &'a [u8],
    index: usize,
}

impl<'a> View for BitReader<'a> {
    type V = (Seq<u8>, nat);

    /// The bytes being read and the position of the next bit.
    closed spec fn view(&self) -> (Seq<u8>, nat) {
        (self.buffer@, self.index as nat)
    }
}

/// Reads the `n` bits of `data` from position `start`, positions at or past
/// `limit` counting as zero bits.
#[verifier::spinoff_prover]
fn window_bits(data: &[u8], start: usize, n: u32, limit: usize) -> (r: u32)
    requires
        n <= 32,
        start < limit,
        limit <= data@.len() * 8,
    ensures
        r == bits_below(data@, start as nat, n as nat, limit as nat),
{
    let mut v: u64 = 0;
    let mut k: u32 = 0;
    while k < n
        invariant
            k <= n <= 32,
            start < limit <= data@.len() * 8,
            v == bits_below(data@, start as nat, k as nat, limit as nat),
            v < two_pow(k as nat),
        decreases n - k,
    {
        let b: u64 = if (k as usize) < limit - start {
            let pos = start + k as usize;
            let byte: u8 = data[pos / 8];
            let shift: u8 = (7 - pos % 8) as u8;
            let bit: u8 = (byte >> shift) & 1;
            assert(bit <= 1) by (bit_vector)
                requires
                    bit == (byte >> shift) & 1u8,
            ;
            bit as u64
        } else {
            0
        };
        proof {
            lemma_two_pow_below(k as nat);
        }
        v = v * 2 + b;
        k = k + 1;
    }
    proof {
        lemma_two_pow_below(n as nat);
    }
    v as u32
}

pub(crate) proof fn lemma_two_pow_below(k: nat)
    requires
        k <= 32,
    ensures
        two_pow(k) <= 0x1_0000_0000,
        two_pow(k + 1) == 2 * two_pow(k),
{
    lemma_two_pow_mono(k, 32);
    reveal_with_fuel(two_pow, 33);
}

proof fn lemma_two_pow_mono(a: nat, b: nat)
    requires
        a <= b,
    ensures
        two_pow(a) <= two_pow(b),
    decreases b,
{
    if a < b {
        lemma_two_pow_mono(a, (b - 1) as nat);
    }
}

impl<'a> BitReader<'a> {
    #[verifier::type_invariant]
    spec fn inv(self) -> bool {
        &&& self.buffer@.len() * 8 <= usize::MAX
        &&& self.index <= self.buffer@.len() * 8
    }

    /// Starts reading `buffer` at its first bit.
    pub fn new(buffer: &'a [u8]) -> (r: BitReader<'a>)
        requires
            buffer@.len() * 8 <= usize::MAX,
        ensures
            r@ == (buffer@, 0nat),
    {
        BitReader { buffer, index: 0 }
    }

    /// The number of bits left.
    pub fn bits(&self) -> (r: usize)
        ensures
            r == self@.0.len() * 8 - self@.1,
    {
        proof {
            use_type_invariant(self);
        }
        self.buffer.len() * 8 - self.index
    }

    /// The number of bytes left, the partly read byte included.
    pub fn len(&self) -> (r: usize)
        ensures
            r == self@.0.len() - self@.1 / 8,
    {
        proof {
            use_type_invariant(self);
        }
        self.buffer.len() - self.index / 8
    }

    /// Whether no bit is left.
    pub fn is_empty(&self) -> (r: bool)
        ensures
            r <==> self@.0.len() * 8 <= self@.1,
    {
        proof {
            use_type_invariant(self);
        }
        self.buffer.len() * 8 <= self.index
    }

    /// The bytes left, the partly read byte included.
    pub fn as_bytes(&self) -> (r: &'a [u8])
        ensures
            r@ == self@.0.subrange((self@.1 / 8) as int, self@.0.len() as int),
    {
        proof {
            use_type_invariant(self);
        }
        &self.buffer[self.index / 8..self.buffer.len()]
    }

    /// Moves the position `n` bits on, at most to the end.
    fn advance(&mut self, n: usize)
        ensures
            final(self)@.0 == old(self)@.0,
            final(self)@.1 == if old(self)@.1 + n <= old(self)@.0.len() * 8 {
                old(self)@.1 + n
            } else {
                (old(self)@.0.len() * 8) as int
            },
    {
        proof {
            use_type_invariant(&*self);
        }
        let nbits = self.buffer.len() * 8;
        if nbits - self.index < n {
            self.index = nbits;
        } else {
            self.index = self.index + n;
        }
    }

    /// Skips `bits` bits, at most to the end.
    pub fn skip(&mut self, bits: u8)
        ensures
            final(self)@.0 == old(self)@.0,
            final(self)@.1 == if old(self)@.1 + bits <= old(self)@.0.len() * 8 {
                old(self)@.1 + bits
            } else {
                (old(self)@.0.len() * 8) as int
            },
    {
        self.advance(bits as usize);
    }

    /// Reads the next bit, which must exist.
    pub fn read1_unchecked(&mut self) -> (r: bool)
        requires
            old(self)@.1 < old(self)@.0.len() * 8,
        ensures
            r == (bit_at(old(self)@.0, old(self)@.1 as int) == 1),
            final(self)@ == (old(self)@.0, old(self)@.1 + 1),
    {
        proof {
            use_type_invariant(&*self);
        }
        let byte: u8 = self.buffer[self.index / 8];
        let shift: u8 = (7 - self.index % 8) as u8;
        let bit: u8 = (byte >> shift) & 1;
        assert(bit <= 1) by (bit_vector)
            requires
                bit == (byte >> shift) & 1u8,
        ;
        let v = bit != 0;
        self.index = self.index + 1;
        v
    }

    /// Reads the next bit, or returns `None` at the end.
    pub fn read1(&mut self) -> (r: Option<bool>)
        ensures
            r is Some <==> old(self)@.1 < old(self)@.0.len() * 8,
            r matches Some(b) ==> b == (bit_at(old(self)@.0, old(self)@.1 as int) == 1)
                && final(self)@ == (old(self)@.0, old(self)@.1 + 1),
            r is None ==> final(self)@ == old(self)@,
    {
        proof {
            use_type_invariant(&*self);
        }
        if self.buffer.len() <= self.index / 8 {
            None
        } else {
            Some(self.read1_unchecked())
        }
    }

    /// Reads `N` bits, 1 to 25 of them, as [`BitReader::read`] does, without
    /// its check that [`read_unit`] bytes are left.
    pub fn read_unchecked<const N: u32>(&mut self) -> (r: u32)
        requires
            1 <= N <= 25,
            old(self)@.0.len() - old(self)@.1 / 8 >= read_unit(N as nat),
        ensures
            r == bits_at(old(self)@.0, old(self)@.1, N as nat),
            final(self)@ == (old(self)@.0, (old(self)@.1 + N) as nat),
    {
        let n: u32 = N;
        proof {
            use_type_invariant(&*self);
        }
        let unit: usize = if n <= 1 {
            1
        } else if n <= 9 {
            2
        } else {
            4
        };
        let limit = (self.index / 8 + unit) * 8;
        let v = window_bits(self.buffer, self.index, n, limit);
        proof {
            lemma_bits_below(self.buffer@, self.index as nat, n as nat, limit as nat);
        }
        self.advance(n as usize);
        v
    }

    /// Reads `N` bits, 1 to 25 of them, big-endian; the read loads
    /// [`read_unit`] bytes from the current byte, and `None` is returned
    /// when fewer are left.
    pub fn read<const N: u32>(&mut self) -> (r: Option<u32>)
        requires
            1 <= N <= 25,
        ensures
            r is Some <==> old(self)@.0.len() - old(self)@.1 / 8 >= read_unit(N as nat),
            r matches Some(v) ==> v == bits_at(old(self)@.0, old(self)@.1, N as nat)
                && final(self)@ == (old(self)@.0, (old(self)@.1 + N) as nat),
            r is None ==> final(self)@ == old(self)@,
    {
        let n: u32 = N;
        let unit: usize = if n <= 1 {
            1
        } else if n <= 9 {
            2
        } else {
            4
        };
        if self.len() < unit {
            None
        } else {
            Some(self.read_unchecked::<N>())
        }
    }

    /// Reads `N` bits, 1 to 32 of them, within the [`inside_unit`] bytes
    /// from the current byte; bits past those bytes read as zero.
    pub fn read_inside_unchecked<const N: u32>(&mut self) -> (r: u32)
        requires
            1 <= N <= 32,
            old(self)@.0.len() - old(self)@.1 / 8 >= inside_unit(N as nat),
        ensures
            r == bits_below(
                old(self)@.0,
                old(self)@.1,
                N as nat,
                ((old(self)@.1 / 8 + inside_unit(N as nat)) * 8) as nat,
            ),
            final(self)@.0 == old(self)@.0,
            final(self)@.1 == if old(self)@.1 + N <= old(self)@.0.len() * 8 {
                old(self)@.1 + N
            } else {
                (old(self)@.0.len() * 8) as int
            },
    {
        let n: u32 = N;
        proof {
            use_type_invariant(&*self);
        }
        let unit: usize = if n <= 8 {
            1
        } else if n <= 16 {
            2
        } else {
            4
        };
        let limit = (self.index / 8 + unit) * 8;
        let v = window_bits(self.buffer, self.index, n, limit);
        self.advance(n as usize);
        v
    }

    /// Reads `N` bits, 1 to 32 of them, big-endian, when they lie within the
    /// [`inside_unit`] bytes from the current byte and those bytes are left;
    /// otherwise returns `None`.
    pub fn read_inside<const N: u32>(&mut self) -> (r: Option<u32>)
        requires
            1 <= N <= 32,
        ensures
            r is Some <==> old(self)@.0.len() - old(self)@.1 / 8 >= inside_unit(N as nat)
                && old(self)@.1 + N <= (old(self)@.1 / 8 + inside_unit(N as nat)) * 8,
            r matches Some(v) ==> v == bits_at(old(self)@.0, old(self)@.1, N as nat)
                && final(self)@ == (old(self)@.0, (old(self)@.1 + N) as nat),
            r is None ==> final(self)@ == old(self)@,
    {
        let n: u32 = N;
        proof {
            use_type_invariant(&*self);
        }
        let unit: usize = if n <= 8 {
            1
        } else if n <= 16 {
            2
        } else {
            4
        };
        if self.len() < unit || self.index % 8 + n as usize > unit * 8 {
            None
        } else {
            let start = self.index;
            let limit = (self.index / 8 + unit) * 8;
            let v = self.read_inside_unchecked::<N>();
            proof {
                lemma_bits_below(self.buffer@, start as nat, n as nat, limit as nat);
            }
            Some(v)
        }
    }
}

} // verus!
