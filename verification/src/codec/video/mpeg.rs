//! MPEG-1/MPEG-2 video sequence headers.

use vstd::prelude::*;

use crate::codec::{find_bytes, first_occurrence, lemma_first_occurrence, Rational};
use crate::isdb::time::{decimal_text, write_decimal};

verus! {

/// An MPEG-2 profile.
#[derive(Debug, Clone, Copy, PartialEq, Eq, Hash)]
pub struct Profile(pub u8);

impl Profile {
    /// Simple profile.
    pub const SIMPLE: u8 = 0b101;
    /// Main profile.
    pub const MAIN: u8 = 0b100;
    /// SNR Scalable profile.
    pub const SNR_SCALABLE: u8 = 0b011;
    /// Spatially Scalable profile.
    pub const SPATIALLY_SCALABLE: u8 = 0b010;
    /// High profile.
    pub const HIGH: u8 = 0b001;

    /// The profile's name, or `Profile(` with its number when it has none.
    pub fn to_debug_string(&self) -> (r: String)
        ensures
            r@ == profile_text(self.0),
    {
        if self.0 == Profile::SIMPLE {
            String::from_str("Simple")
        } else if self.0 == Profile::MAIN {
            String::from_str("Main")
        } else if self.0 == Profile::SNR_SCALABLE {
            String::from_str("SNR Scalable")
        } else if self.0 == Profile::SPATIALLY_SCALABLE {
            String::from_str("Spatially Scalable")
        } else if self.0 == Profile::HIGH {
            String::from_str("High")
        } else {
            numbered_text("Profile(", self.0)
        }
    }
}

/// `prefix`, the decimal digits of `n`, then `)`.
pub open spec fn numbered(prefix: Seq<char>, n: u8) -> Seq<char> {
    prefix + decimal_text(n as nat) + seq![')']
}

/// The text of a profile: its name, or `Profile(` with its number.
pub open spec fn profile_text(p: u8) -> Seq<char> {
    if p == Profile::SIMPLE {
        "Simple"@
    } else if p == Profile::MAIN {
        "Main"@
    } else if p == Profile::SNR_SCALABLE {
        "SNR Scalable"@
    } else if p == Profile::SPATIALLY_SCALABLE {
        "Spatially Scalable"@
    } else if p == Profile::HIGH {
        "High"@
    } else {
        numbered("Profile("@, p)
    }
}

/// `prefix`, the decimal digits of `n`, then `)`, as a string.
fn numbered_text(prefix: &str, n: u8) -> (r: String)
    ensures
        r@ == numbered(prefix@, n),
{
    let mut s = String::from_str(prefix);
    write_decimal(&mut s, n as u64);
    s.append(")");
    proof {
        reveal_strlit(")");
    }
    s
}

/// An MPEG-2 level.
#[derive(Debug, Clone, Copy, PartialEq, Eq, Hash)]
pub struct Level(pub u8);

impl Level {
    /// Low level.
    pub const LOW: u8 = 0b1010;
    /// Main level.
    pub const MAIN: u8 = 0b1000;
    /// High 1440 level.
    pub const HIGH_1440: u8 = 0b0110;
    /// High level.
    pub const HIGH: u8 = 0b0100;

    /// The level's name, or `Level(` with its number when it has none.
    pub fn to_debug_string(&self) -> (r: String)
        ensures
            r@ == level_text(self.0),
    {
        if self.0 == Level::LOW {
            String::from_str("Low")
        } else if self.0 == Level::MAIN {
            String::from_str("Main")
        } else if self.0 == Level::HIGH_1440 {
            String::from_str("High 1440")
        } else if self.0 == Level::HIGH {
            String::from_str("High")
        } else {
            numbered_text("Level(", self.0)
        }
    }
}

/// The text of a level: its name, or `Level(` with its number.
pub open spec fn level_text(l: u8) -> Seq<char> {
    if l == Level::LOW {
        "Low"@
    } else if l == Level::MAIN {
        "Main"@
    } else if l == Level::HIGH_1440 {
        "High 1440"@
    } else if l == Level::HIGH {
        "High"@
    } else {
        numbered("Level("@, l)
    }
}

/// A chroma format.
#[derive(Debug, Clone, Copy, PartialEq, Eq)]
pub enum ChromaFormat {
    /// Unknown.
    Unknown,
    /// 4:2:0.
    CF420,
    /// 4:2:2.
    CF422,
    /// 4:4:4.
    CF444,
}

/// The text of a chroma format.
pub open spec fn chroma_format_text(c: ChromaFormat) -> Seq<char> {
    match c {
        ChromaFormat::Unknown => "Unknown"@,
        ChromaFormat::CF420 => "4:2:0"@,
        ChromaFormat::CF422 => "4:2:2"@,
        ChromaFormat::CF444 => "4:4:4"@,
    }
}

impl ChromaFormat {
    /// The chroma format as text, such as `4:2:0`.
    pub fn to_debug_string(&self) -> (r: String)
        ensures
            r@ == chroma_format_text(*self),
    {
        match self {
            ChromaFormat::Unknown => String::from_str("Unknown"),
            ChromaFormat::CF420 => String::from_str("4:2:0"),
            ChromaFormat::CF422 => String::from_str("4:2:2"),
            ChromaFormat::CF444 => String::from_str("4:4:4"),
        }
    }
}

/// An MPEG sequence header.
#[derive(Debug, Clone)]
pub struct Sequence {
    /// The width.
    pub horizontal_size: u16,
    /// The height.
    pub vertical_size: u16,
    /// The pixel aspect ratio.
    pub pixel_aspect_ratio: Rational<u32>,
    /// The frame rate.
    pub frame_rate: Rational<u32>,
    /// The bit rate.
    pub bit_rate: u32,
    /// The MPEG-2 sequence extension.
    pub extension: Option<SeqExt>,
}

/// An MPEG-2 sequence extension.
#[derive(Debug, Clone)]
pub struct SeqExt {
    /// The level.
    pub level: Level,
    /// The profile.
    pub profile: Profile,
    /// The `progressive_sequence` flag.
    pub progressive: bool,
    /// The chroma format.
    pub chroma_format: ChromaFormat,
}

/// The start code of a sequence header.
pub open spec fn sequence_start() -> Seq<u8> {
    seq![0x00u8, 0x00, 0x01, 0xB3]
}

/// The start code of an extension.
pub open spec fn extension_start() -> Seq<u8> {
    seq![0x00u8, 0x00, 0x01, 0xB5]
}

/// The rational of `n / d`.
pub open spec fn ratio(n: u32, d: u32) -> Rational<u32> {
    Rational { numerator: n, denominator: d }
}

/// The pixel aspect ratio of an `aspect_ratio_information` code; 0/1 for
/// an unknown code.
pub open spec fn aspect_ratio_of(code: u8) -> Rational<u32> {
    if code == 1 {
        ratio(1, 1)
    } else if code == 2 {
        ratio(4, 3)
    } else if code == 3 {
        ratio(16, 9)
    } else if code == 4 {
        ratio(221, 100)
    } else {
        ratio(0, 1)
    }
}

/// The frame rate of a `frame_rate_code`; 0/1 for an unknown code.
pub open spec fn frame_rate_of(code: u8) -> Rational<u32> {
    if code == 1 {
        ratio(24000, 1001)
    } else if code == 2 {
        ratio(24, 1)
    } else if code == 3 {
        ratio(25, 1)
    } else if code == 4 {
        ratio(30000, 1001)
    } else if code == 5 {
        ratio(30, 1)
    } else if code == 6 {
        ratio(50, 1)
    } else if code == 7 {
        ratio(60000, 1001)
    } else if code == 8 {
        ratio(60, 1)
    } else {
        ratio(0, 1)
    }
}

/// The two-bit `chroma_format` codes decode as ISO/IEC 13818-2 names them:
/// 1 4:2:0, 2 4:2:2, 3 4:4:4, and the reserved 0 as unknown; different codes
/// give different formats.
pub proof fn law_chroma_format_table(c: u8, d: u8)
    ensures
        c == 0 ==> chroma_format_of(c) == ChromaFormat::Unknown,
        c == 1 ==> chroma_format_of(c) == ChromaFormat::CF420,
        c == 2 ==> chroma_format_of(c) == ChromaFormat::CF422,
        c == 3 ==> chroma_format_of(c) == ChromaFormat::CF444,
        c <= 3 && d <= 3 && c != d ==> chroma_format_of(c) != chroma_format_of(d),
{
}

/// The pixel aspect ratio of each `aspect_ratio_information` code is the one
/// of the ISO/IEC 13818-2 table: 1:1, 4:3, 16:9 and 2.21:1 for codes 1 to 4,
/// each a ratio with a positive denominator and a larger code a wider ratio;
/// any other code gives 0/1.
pub proof fn law_aspect_ratio_table(c: u8, d: u8)
    ensures
        c == 1 ==> aspect_ratio_of(c).numerator == aspect_ratio_of(c).denominator,
        c == 2 ==> 3 * aspect_ratio_of(c).numerator == 4 * aspect_ratio_of(c).denominator,
        c == 3 ==> 9 * aspect_ratio_of(c).numerator == 16 * aspect_ratio_of(c).denominator,
        c == 4 ==> 100 * aspect_ratio_of(c).numerator == 221 * aspect_ratio_of(c).denominator,
        1 <= c <= 4 ==> aspect_ratio_of(c).denominator > 0,
        !(1 <= c <= 4) ==> aspect_ratio_of(c) == (Rational::<u32> { numerator: 0, denominator: 1 }),
        1 <= c < d <= 4 ==> aspect_ratio_of(c).numerator * aspect_ratio_of(d).denominator
            < aspect_ratio_of(d).numerator * aspect_ratio_of(c).denominator,
{
}

/// The frame rate of each `frame_rate_code` is the one of the ISO/IEC
/// 13818-2 table: 24000/1001, 24, 25, 30000/1001, 30, 50, 60000/1001 and 60
/// frames a second for codes 1 to 8, each with a positive denominator and a
/// larger code a higher rate; any other code gives 0/1.
pub proof fn law_frame_rate_table(c: u8, d: u8)
    ensures
        c == 1 ==> 1001 * frame_rate_of(c).numerator == 24000 * frame_rate_of(c).denominator,
        c == 2 ==> frame_rate_of(c).numerator == 24 * frame_rate_of(c).denominator,
        c == 3 ==> frame_rate_of(c).numerator == 25 * frame_rate_of(c).denominator,
        c == 4 ==> 1001 * frame_rate_of(c).numerator == 30000 * frame_rate_of(c).denominator,
        c == 5 ==> frame_rate_of(c).numerator == 30 * frame_rate_of(c).denominator,
        c == 6 ==> frame_rate_of(c).numerator == 50 * frame_rate_of(c).denominator,
        c == 7 ==> 1001 * frame_rate_of(c).numerator == 60000 * frame_rate_of(c).denominator,
        c == 8 ==> frame_rate_of(c).numerator == 60 * frame_rate_of(c).denominator,
        1 <= c <= 8 ==> frame_rate_of(c).denominator > 0,
        !(1 <= c <= 8) ==> frame_rate_of(c) == (Rational::<u32> { numerator: 0, denominator: 1 }),
        1 <= c < d <= 8 ==> frame_rate_of(c).numerator * frame_rate_of(d).denominator
            < frame_rate_of(d).numerator * frame_rate_of(c).denominator,
{
}

/// The chroma format of a two-bit `chroma_format` code.
pub open spec fn chroma_format_of(code: u8) -> ChromaFormat {
    if code == 0 {
        ChromaFormat::Unknown
    } else if code == 1 {
        ChromaFormat::CF420
    } else if code == 2 {
        ChromaFormat::CF422
    } else {
        ChromaFormat::CF444
    }
}

/// The sequence header coded in the twelve bytes at the start of `h`,
/// before any extension is applied.
pub open spec fn base_sequence(h: Seq<u8>) -> Sequence {
    Sequence {
        horizontal_size: (h[4] * 16 + h[5] / 16) as u16,
        vertical_size: ((h[5] % 16) * 256 + h[6]) as u16,
        pixel_aspect_ratio: aspect_ratio_of(h[7] / 16),
        frame_rate: frame_rate_of(h[7] % 16),
        bit_rate: (h[8] * 1024 + h[9] * 4 + h[10] / 64) as u32,
        extension: None,
    }
}

/// The sequence extension coded at the start of `e`.
pub open spec fn seq_ext_of(e: Seq<u8>) -> SeqExt {
    SeqExt {
        level: Level(e[5] / 16),
        profile: Profile(e[4] % 8),
        progressive: (e[5] / 8) % 2 == 1,
        chroma_format: chroma_format_of(((e[5] / 2) % 4) as u8),
    }
}

/// `b`, the sequence header before any extension, with the extension coded
/// at the start of `e` applied: the high bits of the sizes and bit rate,
/// and the frame rate multiplier and divisor.
pub open spec fn extended_sequence(b: Sequence, e: Seq<u8>) -> Sequence {
    Sequence {
        horizontal_size: (b.horizontal_size + ((e[5] % 2) * 2 + e[6] / 128) * 4096) as u16,
        vertical_size: (b.vertical_size + ((e[6] / 32) % 4) * 4096) as u16,
        pixel_aspect_ratio: b.pixel_aspect_ratio,
        frame_rate: ratio(
            (b.frame_rate.numerator * (e[9] / 32 + 1)) as u32,
            (b.frame_rate.denominator * (e[9] % 32 + 1)) as u32,
        ),
        bit_rate: (b.bit_rate + ((e[6] % 32) * 128 + e[7] / 2) * 0x40000) as u32,
        extension: Some(seq_ext_of(e)),
    }
}

/// The sequence header that [`Sequence::find`] reads from `s`: the first
/// sequence start code with twelve bytes from it, and the first extension
/// start code after those twelve bytes when ten bytes follow it.
pub open spec fn sequence_of(s: Seq<u8>) -> Option<Sequence> {
    match first_occurrence(s, sequence_start()) {
        None => None,
        Some(p) => {
            let h = s.subrange(p, s.len() as int);
            if h.len() < 12 {
                None
            } else {
                let rest = h.subrange(12, h.len() as int);
                match first_occurrence(rest, extension_start()) {
                    Some(q) if rest.len() - q >= 10 => Some(
                        extended_sequence(base_sequence(h), rest.subrange(q, rest.len() as int)),
                    ),
                    _ => Some(base_sequence(h)),
                }
            }
        },
    }
}

fn aspect_ratio(code: u8) -> (r: Rational<u32>)
    ensures
        r == aspect_ratio_of(code),
{
    match code {
        1 => Rational::new(1, 1),
        2 => Rational::new(4, 3),
        3 => Rational::new(16, 9),
        4 => Rational::new(221, 100),
        _ => Rational::new(0, 1),
    }
}

fn frame_rate(code: u8) -> (r: Rational<u32>)
    ensures
        r == frame_rate_of(code),
{
    match code {
        1 => Rational::new(24000, 1001),
        2 => Rational::new(24, 1),
        3 => Rational::new(25, 1),
        4 => Rational::new(30000, 1001),
        5 => Rational::new(30, 1),
        6 => Rational::new(50, 1),
        7 => Rational::new(60000, 1001),
        8 => Rational::new(60, 1),
        _ => Rational::new(0, 1),
    }
}

impl Sequence {
    /// Finds the first sequence header in `buf`, with the MPEG-2 sequence
    /// extension that follows it applied when there is one.
    pub fn find(buf: &[u8]) -> (r: Option<Sequence>)
        ensures
            r == sequence_of(buf@),
    {
        let start: [u8; 4] = [0x00, 0x00, 0x01, 0xB3];
        proof {
            assert(start@ =~= sequence_start());
            lemma_first_occurrence(buf@, sequence_start());
        }
        let pos = match find_bytes(buf, &start) {
            Some(p) => p,
            None => {
                return None;
            },
        };
        let h = &buf[pos..buf.len()];
        assert(h@ =~= buf@.subrange(pos as int, buf@.len() as int));
        if h.len() < 12 {
            return None;
        }
        let h4: u8 = h[4];
        let h5: u8 = h[5];
        let h6: u8 = h[6];
        let h7: u8 = h[7];
        let h8: u8 = h[8];
        let h9: u8 = h[9];
        let h10: u8 = h[10];
        let mut horizontal_size: u16 = ((h4 as u16) << 4) | ((h5 >> 4) as u16);
        let mut vertical_size: u16 = (((h5 & 0x0F) as u16) << 8) | (h6 as u16);
        assert(horizontal_size == h4 * 16 + h5 / 16) by (bit_vector)
            requires
                horizontal_size == ((h4 as u16) << 4) | ((h5 >> 4) as u16),
        ;
        assert(vertical_size == (h5 % 16) * 256 + h6) by (bit_vector)
            requires
                vertical_size == (((h5 & 0x0F) as u16) << 8) | (h6 as u16),
        ;
        let pixel_aspect_ratio = aspect_ratio(h7 >> 4);
        let mut frame_rate = frame_rate(h7 & 0x0F);
        assert(h7 >> 4 == h7 / 16 && h7 & 0x0F == h7 % 16) by (bit_vector);
        let mut bit_rate: u32 = ((h8 as u32) << 10) | ((h9 as u32) << 2) | ((h10 >> 6) as u32);
        assert(bit_rate == h8 * 1024 + h9 * 4 + h10 / 64) by (bit_vector)
            requires
                bit_rate == ((h8 as u32) << 10) | ((h9 as u32) << 2) | ((h10 >> 6) as u32),
        ;
        let ghost base = base_sequence(h@);
        let rest = &h[12..h.len()];
        assert(rest@ =~= h@.subrange(12, h@.len() as int));
        let ext_start: [u8; 4] = [0x00, 0x00, 0x01, 0xB5];
        proof {
            assert(ext_start@ =~= extension_start());
            lemma_first_occurrence(rest@, extension_start());
        }
        let extension = match find_bytes(rest, &ext_start) {
            Some(q) => {
                if rest.len() - q < 10 {
                    None
                } else {
                    let e = &rest[q..rest.len()];
                    assert(e@ =~= rest@.subrange(q as int, rest@.len() as int));
                    let e4: u8 = e[4];
                    let e5: u8 = e[5];
                    let e6: u8 = e[6];
                    let e7: u8 = e[7];
                    let e9: u8 = e[9];
                    let profile = Profile(e4 & 0x07);
                    let level = Level(e5 >> 4);
                    let progressive = e5 & 0b1000 != 0;
                    let chroma_format = match (e5 & 0b110) >> 1 {
                        0 => ChromaFormat::Unknown,
                        1 => ChromaFormat::CF420,
                        2 => ChromaFormat::CF422,
                        _ => ChromaFormat::CF444,
                    };
                    assert(e4 & 0x07 == e4 % 8 && e5 >> 4 == e5 / 16 && (e5 & 0b1000 != 0) == ((
                    e5 / 8) % 2 == 1) && (e5 & 0b110) >> 1 == (e5 / 2) % 4) by (bit_vector);
                    let horz_size_ext: u8 = ((e5 & 1) << 1) | (e6 >> 7);
                    let vert_size_ext: u8 = (e6 >> 5) & 0x03;
                    assert(horz_size_ext == (e5 % 2) * 2 + e6 / 128 && vert_size_ext == (e6 / 32)
                        % 4) by (bit_vector)
                        requires
                            horz_size_ext == ((e5 & 1) << 1) | (e6 >> 7),
                            vert_size_ext == (e6 >> 5) & 0x03,
                    ;
                    let hs = horizontal_size;
                    let vs = vertical_size;
                    horizontal_size = hs | ((horz_size_ext as u16) << 12);
                    vertical_size = vs | ((vert_size_ext as u16) << 12);
                    assert(horizontal_size == hs + horz_size_ext * 4096) by (bit_vector)
                        requires
                            hs < 4096,
                            horz_size_ext < 4,
                            horizontal_size == hs | ((horz_size_ext as u16) << 12),
                    ;
                    assert(vertical_size == vs + vert_size_ext * 4096) by (bit_vector)
                        requires
                            vs < 4096,
                            vert_size_ext < 4,
                            vertical_size == vs | ((vert_size_ext as u16) << 12),
                    ;
                    let bit_rate_ext: u32 = (((e6 & 0x1F) as u32) << 7) | ((e7 >> 1) as u32);
                    assert(bit_rate_ext == (e6 % 32) * 128 + e7 / 2) by (bit_vector)
                        requires
                            bit_rate_ext == (((e6 & 0x1F) as u32) << 7) | ((e7 >> 1) as u32),
                    ;
                    let br = bit_rate;
                    bit_rate = br | (bit_rate_ext << 18);
                    assert(bit_rate == br + bit_rate_ext * 0x40000) by (bit_vector)
                        requires
                            br < 0x40000,
                            bit_rate_ext < 4096,
                            bit_rate == br | (bit_rate_ext << 18),
                    ;
                    assert(e9 >> 5 == e9 / 32 && e9 & 0x1F == e9 % 32) by (bit_vector);
                    let frame_rate_n: u8 = (e9 >> 5) + 1;
                    let frame_rate_d: u8 = (e9 & 0x1F) + 1;
                    let fr_n = frame_rate.numerator;
                    let fr_d = frame_rate.denominator;
                    assert(fr_n * frame_rate_n <= 60000 * 8 && fr_d * frame_rate_d <= 1001 * 32)
                        by (nonlinear_arith)
                        requires
                            fr_n <= 60000,
                            fr_d <= 1001,
                            frame_rate_n <= 8,
                            frame_rate_d <= 32,
                    ;
                    frame_rate.numerator = frame_rate.numerator * frame_rate_n as u32;
                    frame_rate.denominator = frame_rate.denominator * frame_rate_d as u32;
                    Some(SeqExt { level, profile, progressive, chroma_format })
                }
            },
            None => None,
        };
        Some(
            Sequence {
                horizontal_size,
                vertical_size,
                pixel_aspect_ratio,
                frame_rate,
                bit_rate,
                extension,
            },
        )
    }
}

} // verus!
