//! ADTS headers of AAC audio.

use vstd::prelude::*;

use arrayvec::ArrayVec;

use crate::bit::{bit_at, bits_at, lemma_bits_bound, lemma_two_pow_below, read_unit, two_pow, BitReader};
use crate::codec::{find_byte, first_occurrence, lemma_first_occurrence, occurs_at};

verus! {

/// The element id of a program config element.
pub const ID_PCE: u32 = 0x5;

/// A sampling frequency.
#[derive(Debug, Clone, Copy, PartialEq, Eq, Structural)]
pub enum SamplingFrequency {
    /// 96 kHz.
    SF96000,
    /// 48 kHz.
    SF48000,
    /// 44.1 kHz.
    SF44100,
    /// 32 kHz.
    SF32000,
    /// 24 kHz.
    SF24000,
    /// 22.05 kHz.
    SF22050,
    /// 16 kHz.
    SF16000,
}

/// The sampling frequency of a `sampling_frequency_index`, if it is one of
/// those that ADTS here allows.
pub open spec fn sampling_frequency_of(v: nat) -> Option<SamplingFrequency> {
    if v == 0 {
        Some(SamplingFrequency::SF96000)
    } else if v == 3 {
        Some(SamplingFrequency::SF48000)
    } else if v == 4 {
        Some(SamplingFrequency::SF44100)
    } else if v == 5 {
        Some(SamplingFrequency::SF32000)
    } else if v == 6 {
        Some(SamplingFrequency::SF24000)
    } else if v == 7 {
        Some(SamplingFrequency::SF22050)
    } else if v == 8 {
        Some(SamplingFrequency::SF16000)
    } else {
        None
    }
}

/// The `sampling_frequency_index` of a sampling frequency.
pub open spec fn sampling_index_of(f: SamplingFrequency) -> u8 {
    match f {
        SamplingFrequency::SF96000 => 0,
        SamplingFrequency::SF48000 => 3,
        SamplingFrequency::SF44100 => 4,
        SamplingFrequency::SF32000 => 5,
        SamplingFrequency::SF24000 => 6,
        SamplingFrequency::SF22050 => 7,
        SamplingFrequency::SF16000 => 8,
    }
}

/// A sampling frequency in hertz.
pub open spec fn hertz_of(f: SamplingFrequency) -> u32 {
    match f {
        SamplingFrequency::SF96000 => 96000,
        SamplingFrequency::SF48000 => 48000,
        SamplingFrequency::SF44100 => 44100,
        SamplingFrequency::SF32000 => 32000,
        SamplingFrequency::SF24000 => 24000,
        SamplingFrequency::SF22050 => 22050,
        SamplingFrequency::SF16000 => 16000,
    }
}

/// The text of a sampling frequency, such as `48kHZ`.
pub open spec fn sampling_frequency_text(f: SamplingFrequency) -> Seq<char> {
    match f {
        SamplingFrequency::SF96000 => "96kHZ"@,
        SamplingFrequency::SF48000 => "48kHZ"@,
        SamplingFrequency::SF44100 => "44.1kHZ"@,
        SamplingFrequency::SF32000 => "32kHZ"@,
        SamplingFrequency::SF24000 => "24kHZ"@,
        SamplingFrequency::SF22050 => "22.05kHZ"@,
        SamplingFrequency::SF16000 => "16KHz"@,
    }
}

impl SamplingFrequency {
    /// The sampling frequency as text, such as `48kHZ`.
    pub fn to_debug_string(&self) -> (r: String)
        ensures
            r@ == sampling_frequency_text(*self),
    {
        match self {
            SamplingFrequency::SF96000 => String::from_str("96kHZ"),
            SamplingFrequency::SF48000 => String::from_str("48kHZ"),
            SamplingFrequency::SF44100 => String::from_str("44.1kHZ"),
            SamplingFrequency::SF32000 => String::from_str("32kHZ"),
            SamplingFrequency::SF24000 => String::from_str("24kHZ"),
            SamplingFrequency::SF22050 => String::from_str("22.05kHZ"),
            SamplingFrequency::SF16000 => String::from_str("16KHz"),
        }
    }

    /// The sampling frequency of a `sampling_frequency_index`.
    pub fn new(v: u8) -> (r: Option<SamplingFrequency>)
        ensures
            r == sampling_frequency_of(v as nat),
    {
        match v {
            0 => Some(SamplingFrequency::SF96000),
            3 => Some(SamplingFrequency::SF48000),
            4 => Some(SamplingFrequency::SF44100),
            5 => Some(SamplingFrequency::SF32000),
            6 => Some(SamplingFrequency::SF24000),
            7 => Some(SamplingFrequency::SF22050),
            8 => Some(SamplingFrequency::SF16000),
            _ => None,
        }
    }

    /// The `sampling_frequency_index` of this frequency in ADTS.
    pub fn index(self) -> (r: u8)
        ensures
            r == sampling_index_of(self),
    {
        match self {
            SamplingFrequency::SF96000 => 0,
            SamplingFrequency::SF48000 => 3,
            SamplingFrequency::SF44100 => 4,
            SamplingFrequency::SF32000 => 5,
            SamplingFrequency::SF24000 => 6,
            SamplingFrequency::SF22050 => 7,
            SamplingFrequency::SF16000 => 8,
        }
    }

    /// The frequency in hertz.
    pub fn to_u32(self) -> (r: u32)
        ensures
            r == hertz_of(self),
    {
        match self {
            SamplingFrequency::SF96000 => 96000,
            SamplingFrequency::SF48000 => 48000,
            SamplingFrequency::SF44100 => 44100,
            SamplingFrequency::SF32000 => 32000,
            SamplingFrequency::SF24000 => 24000,
            SamplingFrequency::SF22050 => 22050,
            SamplingFrequency::SF16000 => 16000,
        }
    }
}

/// A sampling frequency and its index give each other back.
pub proof fn law_sampling_index_round_trip(f: SamplingFrequency, v: nat)
    ensures
        sampling_frequency_of(sampling_index_of(f) as nat) == Some(f),
        sampling_frequency_of(v) matches Some(g) ==> sampling_index_of(g) == v,
{
}

/// The sampling frequency decoded from a `sampling_frequency_index` is the
/// one that ISO/IEC 13818-7 gives the index, in hertz: indexes 0 and 3 to 8
/// are allowed here, for 96, 48, 44.1, 32, 24, 22.05 and 16 kHz, so a larger
/// index always means a lower frequency.
pub proof fn law_sampling_frequency_table(v: nat, w: nat)
    ensures
        sampling_frequency_of(v) is Some <==> (v == 0 || 3 <= v <= 8),
        sampling_frequency_of(v) matches Some(f) ==> hertz_of(f) == if v == 0 {
            96000
        } else if v == 3 {
            48000
        } else if v == 4 {
            44100
        } else if v == 5 {
            32000
        } else if v == 6 {
            24000
        } else if v == 7 {
            22050
        } else {
            16000u32
        },
        sampling_frequency_of(v) matches Some(f) ==> (sampling_frequency_of(w) matches Some(g)
            ==> (v < w ==> hertz_of(f) > hertz_of(g))),
{
}

/// An element assigned to a speaker.
#[derive(Debug, Clone, Copy, PartialEq, Eq, Hash, Structural)]
pub enum Address {
    /// The tag of a single channel element.
    Sce(u8),
    /// The tag of a channel pair element.
    Cpe(u8),
}

/// An element assigned to a coupling channel element.
#[derive(Debug, Clone, PartialEq, Eq, Structural)]
pub struct CceAddress {
    /// `cc_element_is_ind_sw`.
    pub is_ind_sw: bool,
    /// `valid_cc_element_tag_select`.
    pub tag: u8,
}

/// `arrayvec::ArrayVec`, an opaque type here: its elements are known only
/// through the names below.
#[verifier::external_type_specification]
#[verifier::external_body]
#[verifier::reject_recursive_types(T)]
pub struct ExArrayVec<T, const CAP: usize>(ArrayVec<T, CAP>);

/// `Clone::clone` of `ArrayVec`, which the derived `Clone` of
/// [`ProgramConfig`] calls; nothing is claimed of its result.
pub assume_specification<T, const CAP: usize>[ <ArrayVec<T, CAP> as Clone>::clone ](
    v: &ArrayVec<T, CAP>,
) -> ArrayVec<T, CAP> where T: Clone;

/// The elements of an `ArrayVec` of up to 15 addresses, in order.
pub uninterp spec fn address_list(v: ArrayVec<Address, 15>) -> Seq<Address>;

/// The elements of an `ArrayVec` of up to 3 tags, in order.
pub uninterp spec fn tag3_list(v: ArrayVec<u8, 3>) -> Seq<u8>;

/// The elements of an `ArrayVec` of up to 7 tags, in order.
pub uninterp spec fn tag7_list(v: ArrayVec<u8, 7>) -> Seq<u8>;

/// The elements of an `ArrayVec` of up to 15 coupling channel addresses, in
/// order.
pub uninterp spec fn cce_list(v: ArrayVec<CceAddress, 15>) -> Seq<CceAddress>;

/// `ArrayVec::from_iter` on a `Vec`: the elements in order; it panics on
/// more than the capacity, which `requires` excludes.
#[verifier::external_body]
fn addresses_from_vec(items: Vec<Address>) -> (r: ArrayVec<Address, 15>)
    requires
        items@.len() <= 15,
    ensures
        address_list(r) == items@,
{
    ArrayVec::from_iter(items)
}

/// `ArrayVec::from_iter` on a `Vec`: the elements in order; it panics on
/// more than the capacity, which `requires` excludes.
#[verifier::external_body]
fn tags3_from_vec(items: Vec<u8>) -> (r: ArrayVec<u8, 3>)
    requires
        items@.len() <= 3,
    ensures
        tag3_list(r) == items@,
{
    ArrayVec::from_iter(items)
}

/// `ArrayVec::from_iter` on a `Vec`: the elements in order; it panics on
/// more than the capacity, which `requires` excludes.
#[verifier::external_body]
fn tags7_from_vec(items: Vec<u8>) -> (r: ArrayVec<u8, 7>)
    requires
        items@.len() <= 7,
    ensures
        tag7_list(r) == items@,
{
    ArrayVec::from_iter(items)
}

/// `ArrayVec::from_iter` on a `Vec`: the elements in order; it panics on
/// more than the capacity, which `requires` excludes.
#[verifier::external_body]
fn cces_from_vec(items: Vec<CceAddress>) -> (r: ArrayVec<CceAddress, 15>)
    requires
        items@.len() <= 15,
    ensures
        cce_list(r) == items@,
{
    ArrayVec::from_iter(items)
}

/// `ArrayVec::as_slice`: the elements in order, at most the capacity.
#[verifier::external_body]
fn address_slice(v: &ArrayVec<Address, 15>) -> (r: &[Address])
    ensures
        r@ == address_list(*v),
        r@.len() <= 15,
{
    v.as_slice()
}

/// `ArrayVec::as_slice`: the elements in order, at most the capacity.
#[verifier::external_body]
fn tag3_slice(v: &ArrayVec<u8, 3>) -> (r: &[u8])
    ensures
        r@ == tag3_list(*v),
        r@.len() <= 3,
{
    v.as_slice()
}

/// A program config element.
#[derive(Debug, Clone, PartialEq, Eq)]
pub struct ProgramConfig {
    /// Elements assigned to front speakers.
    pub front_elements: ArrayVec<Address, 15>,
    /// Elements assigned to side speakers.
    pub side_elements: ArrayVec<Address, 15>,
    /// Elements assigned to back speakers.
    pub back_elements: ArrayVec<Address, 15>,
    /// Elements assigned to low frequency effects channels.
    pub lfe_elements: ArrayVec<u8, 3>,
    /// Elements assigned to data stream elements.
    pub assoc_data_elements: ArrayVec<u8, 7>,
    /// Elements assigned to coupling channel elements.
    pub cc_elements: ArrayVec<CceAddress, 15>,
}

/// The contents of a [`ProgramConfig`].
pub struct ProgramConfigView {
    /// Front elements.
    pub front: Seq<Address>,
    /// Side elements.
    pub side: Seq<Address>,
    /// Back elements.
    pub back: Seq<Address>,
    /// Low frequency effects elements.
    pub lfe: Seq<u8>,
    /// Data stream elements.
    pub assoc_data: Seq<u8>,
    /// Coupling channel elements.
    pub cc: Seq<CceAddress>,
}

impl View for ProgramConfig {
    type V = ProgramConfigView;

    open spec fn view(&self) -> ProgramConfigView {
        ProgramConfigView {
            front: address_list(self.front_elements),
            side: address_list(self.side_elements),
            back: address_list(self.back_elements),
            lfe: tag3_list(self.lfe_elements),
            assoc_data: tag7_list(self.assoc_data_elements),
            cc: cce_list(self.cc_elements),
        }
    }
}

/// An ADTS frame header of MPEG-2 AAC, with the parameters that ARIB
/// STD-B32 allows.
#[derive(Debug, Clone, PartialEq, Eq)]
pub struct Frame {
    /// The sampling frequency.
    pub sampling_frequency: SamplingFrequency,
    /// MPEG-4 channel configuration (`0..=6`).
    pub channel_configuration: u8,
    /// The frame length (`7..=8191`).
    pub aac_frame_length: u16,
    /// The CRC (16 bits), when present.
    pub crc: Option<u16>,
    /// The program config element.
    pub program_config: Option<ProgramConfig>,
}

/// The contents of a [`Frame`].
pub struct FrameView {
    /// The sampling frequency.
    pub sampling_frequency: SamplingFrequency,
    /// MPEG-4 channel configuration.
    pub channel_configuration: u8,
    /// The frame length.
    pub aac_frame_length: u16,
    /// The CRC.
    pub crc: Option<u16>,
    /// The program config element.
    pub program_config: Option<ProgramConfigView>,
}

impl View for Frame {
    type V = FrameView;

    open spec fn view(&self) -> FrameView {
        FrameView {
            sampling_frequency: self.sampling_frequency,
            channel_configuration: self.channel_configuration,
            aac_frame_length: self.aac_frame_length,
            crc: self.crc,
            program_config: match self.program_config {
                Some(pc) => Some(pc@),
                None => None,
            },
        }
    }
}

/// The `n` bits at position `i` of `f`, read as [`BitReader::read`] reads
/// them, or `None` when fewer than [`read_unit`] bytes are left.
pub open spec fn read_bits(f: Seq<u8>, i: nat, n: nat) -> Option<nat> {
    if f.len() >= i / 8 + read_unit(n) {
        Some(bits_at(f, i, n))
    } else {
        None
    }
}

/// Whether an ADTS header starts at index `i` of `s`: the byte 0xFF, then a
/// byte whose syncword bits are set and whose layer is zero.
pub open spec fn is_sync(s: Seq<u8>, i: int) -> bool {
    0 <= i && i + 1 < s.len() && s[i] == 0xFF && s[i + 1] & 0xF6 == 0xF0
}

/// The index of the first ADTS header in `s` at or after `i`.
pub open spec fn first_sync(s: Seq<u8>, i: int) -> Option<int>
    decreases s.len() - i,
{
    if i < 0 || i + 1 >= s.len() {
        None
    } else if is_sync(s, i) {
        Some(i)
    } else {
        first_sync(s, i + 1)
    }
}

/// The address read from the five bits at position `i` of `f`: a channel
/// pair flag and a tag.
pub open spec fn address_at(f: Seq<u8>, i: nat) -> Address {
    if bit_at(f, i as int) == 1 {
        Address::Cpe(bits_at(f, i + 1, 4) as u8)
    } else {
        Address::Sce(bits_at(f, i + 1, 4) as u8)
    }
}

/// The `k` addresses of five bits each from position `i` of `f`.
pub open spec fn read_addresses(f: Seq<u8>, i: nat, k: nat) -> Seq<Address> {
    Seq::new(k, |m: int| address_at(f, (i + 5 * m) as nat))
}

/// The `k` four-bit tags from position `i` of `f`.
pub open spec fn read_tags(f: Seq<u8>, i: nat, k: nat) -> Seq<u8> {
    Seq::new(k, |m: int| bits_at(f, (i + 4 * m) as nat, 4) as u8)
}

/// The coupling channel address read from the five bits at position `i` of
/// `f`: an independent switching flag and a tag.
pub open spec fn cce_at(f: Seq<u8>, i: nat) -> CceAddress {
    CceAddress { is_ind_sw: bit_at(f, i as int) == 1, tag: bits_at(f, i + 1, 4) as u8 }
}

/// The `k` coupling channel addresses of five bits each from position `i`
/// of `f`.
pub open spec fn read_cces(f: Seq<u8>, i: nat, k: nat) -> Seq<CceAddress> {
    Seq::new(k, |m: int| cce_at(f, (i + 5 * m) as nat))
}

/// The number of bits that the element lists of a program config element
/// with these counts take.
pub open spec fn elements_bits(counts: (nat, nat, nat, nat, nat, nat)) -> nat {
    let (nf, ns, nb, nl, na, nc) = counts;
    5 * (nf + ns + nb + nc) + 4 * (nl + na)
}

/// The element lists of a program config element whose counts were read,
/// read from position `i` of `f`: front, side and back addresses, low
/// frequency effects and data stream tags, then coupling channel addresses.
pub open spec fn read_elements(
    f: Seq<u8>,
    i: nat,
    counts: (nat, nat, nat, nat, nat, nat),
) -> ProgramConfigView {
    let (nf, ns, nb, nl, na, nc) = counts;
    let i1 = i + 5 * nf;
    let i2 = i1 + 5 * ns;
    let i3 = i2 + 5 * nb;
    let i4 = i3 + 4 * nl;
    let i5 = i4 + 4 * na;
    ProgramConfigView {
        front: read_addresses(f, i, nf),
        side: read_addresses(f, i1, ns),
        back: read_addresses(f, i2, nb),
        lfe: read_tags(f, i3, nl),
        assoc_data: read_tags(f, i4, na),
        cc: read_cces(f, i5, nc),
    }
}

/// The element counts of a program config element read from position `q`
/// of the frame `f`, just after its element id, for a frame of sampling
/// index `sfi`, with the position of its first element: front, side, back,
/// low frequency effects, data stream and coupling channel counts. `None`
/// when fewer than 34 bits are left, the sampling index differs, a mixdown
/// is present or the bits left are fewer than the counts ask for.
pub open spec fn pce_header_at(f: Seq<u8>, q: nat, sfi: nat) -> Option<
    ((nat, nat, nat, nat, nat, nat), nat),
> {
    let nbits = f.len() * 8;
    let i0 = q + 6;
    let i1 = i0 + 4;
    if nbits < q + 34 || bits_at(f, i0, 4) != sfi {
        None
    } else {
        let nf = bits_at(f, i1, 4);
        let ns = bits_at(f, i1 + 4, 4);
        let nb = bits_at(f, i1 + 8, 4);
        let nl = bits_at(f, i1 + 12, 2);
        let na = bits_at(f, i1 + 14, 3);
        let nc = bits_at(f, i1 + 17, 4);
        if bit_at(f, (i1 + 21) as int) == 1 || bit_at(f, (i1 + 22) as int) == 1 {
            None
        } else {
            let i2: nat = if bit_at(f, (i1 + 23) as int) == 1 {
                if i1 + 27 <= nbits {
                    i1 + 27
                } else {
                    nbits
                }
            } else {
                i1 + 24
            };
            if nbits - i2 < 5 * (nf + ns + nb + nc) + 4 * (nl + na + nc) {
                None
            } else {
                Some(((nf, ns, nb, nl, na, nc), i2))
            }
        }
    }
}

/// The program config element read from position `q` of the frame `f`,
/// just after its element id, for a frame of sampling index `sfi`.
pub open spec fn pce_at(f: Seq<u8>, q: nat, sfi: nat) -> Option<ProgramConfigView> {
    match pce_header_at(f, q, sfi) {
        None => None,
        Some((counts, i)) => Some(read_elements(f, i, counts)),
    }
}

/// The ADTS header at the start of `f`, read as [`Frame::find`] reads it:
/// `None` when fewer than seven bytes are there or a field has a value that
/// is not allowed.
pub open spec fn frame_at(f: Seq<u8>) -> Option<FrameView> {
    if f.len() < 7 {
        None
    } else {
        let profile = bits_at(f, 16, 2);
        let sfi = bits_at(f, 18, 4);
        let ch = bits_at(f, 23, 3);
        let len = bits_at(f, 30, 13);
        let protection_absent = bit_at(f, 15) == 1;
        if profile != 1 || sampling_frequency_of(sfi) is None || ch > 6 || len < 7 || bits_at(
            f,
            54,
            2,
        ) != 0 || (!protection_absent && f.len() < 9) {
            None
        } else {
            let p: nat = if protection_absent {
                56
            } else {
                72
            };
            let crc = if protection_absent {
                None
            } else {
                Some(bits_at(f, 56, 16) as u16)
            };
            let sf = sampling_frequency_of(sfi).unwrap();
            let frame = |pc: Option<ProgramConfigView>|
                FrameView {
                    sampling_frequency: sf,
                    channel_configuration: ch as u8,
                    aac_frame_length: len as u16,
                    crc,
                    program_config: pc,
                };
            if read_bits(f, p, 3) == Some(5nat) {
                match pce_at(f, p + 3, sfi) {
                    None => None,
                    Some(pc) => Some(frame(Some(pc))),
                }
            } else if ch == 0 {
                None
            } else {
                Some(frame(None))
            }
        }
    }
}

/// The ADTS header that [`Frame::find`] reads from `s`: the one at the first
/// sync position.
pub open spec fn frame_in(s: Seq<u8>) -> Option<FrameView> {
    match first_sync(s, 0) {
        None => None,
        Some(i) => frame_at(s.subrange(i, s.len() as int)),
    }
}

/// The number of channels of a list of speaker elements: two for a channel
/// pair, one for a single channel.
pub open spec fn address_channels(v: Seq<Address>) -> nat
    decreases v.len(),
{
    if v.len() == 0 {
        0
    } else {
        address_channels(v.drop_last()) + match v.last() {
            Address::Cpe(_) => 2nat,
            Address::Sce(_) => 1nat,
        }
    }
}

/// The number of channels that a program config element describes.
pub open spec fn pce_channels(pc: ProgramConfigView) -> nat {
    address_channels(pc.front) + address_channels(pc.side) + address_channels(pc.back)
        + pc.lfe.len()
}

/// Skipping bytes that are not 0xFF does not pass a sync position.
proof fn lemma_first_sync_skip(s: Seq<u8>, a: int, b: int)
    requires
        0 <= a <= b <= s.len(),
        forall|j: int| a <= j < b ==> s[j] != 0xFF,
    ensures
        first_sync(s, a) == first_sync(s, b) || (b + 1 >= s.len() && first_sync(s, a) is None
            && first_sync(s, b) is None),
    decreases b - a,
{
    if a < b {
        lemma_first_sync_skip(s, a + 1, b);
    }
}

/// Reads the `n` bits at the reader's position, which must all be there, and
/// moves past them.
fn take_bits(br: &mut BitReader, n: u32) -> (r: u32)
    requires
        n <= 16,
        old(br)@.1 + n <= old(br)@.0.len() * 8,
    ensures
        final(br)@ == (old(br)@.0, (old(br)@.1 + n) as nat),
        r == bits_at(old(br)@.0, old(br)@.1, n as nat),
        r < two_pow(n as nat),
{
    let ghost f = br@.0;
    let ghost start = br@.1;
    let mut v: u64 = 0;
    let mut k: u32 = 0;
    while k < n
        invariant
            k <= n <= 16,
            br@.0 == f,
            br@.1 == start + k,
            start + n <= f.len() * 8,
            v == bits_at(f, start, k as nat),
            v < two_pow(k as nat),
        decreases n - k,
    {
        let b = br.read1_unchecked();
        proof {
            lemma_two_pow_below(k as nat);
            lemma_bits_bound(f, (start + k) as nat, 1, 0);
            reveal_with_fuel(two_pow, 2);
            reveal_with_fuel(bits_at, 2);
        }
        v = v * 2 + if b {
            1
        } else {
            0
        };
        k = k + 1;
    }
    proof {
        lemma_two_pow_below(n as nat);
    }
    v as u32
}

/// Reads `k` addresses as [`read_addresses`] describes.
fn read_address_list(br: &mut BitReader, k: u32) -> (r: Vec<Address>)
    requires
        k <= 15,
        old(br)@.1 + 5 * k <= old(br)@.0.len() * 8,
    ensures
        final(br)@ == (old(br)@.0, (old(br)@.1 + 5 * k) as nat),
        r@ == read_addresses(old(br)@.0, old(br)@.1, k as nat),
{
    let mut items: Vec<Address> = Vec::new();
    let mut n: u32 = 0;
    let ghost data = br@.0;
    let ghost start = br@.1;
    while n < k
        invariant
            n <= k <= 15,
            br@.0 == data,
            br@.1 == start + 5 * n,
            start + 5 * k <= data.len() * 8,
            items@ == read_addresses(data, start, n as nat),
        decreases k - n,
    {
        let ghost j = br@.1;
        let is_cpe = take_bits(br, 1);
        let tag = take_bits(br, 4);
        proof {
            reveal_with_fuel(two_pow, 5);
            reveal_with_fuel(bits_at, 2);
        }
        let a = if is_cpe == 1 {
            Address::Cpe(tag as u8)
        } else {
            Address::Sce(tag as u8)
        };
        items.push(a);
        proof {
            assert(items@ =~= read_addresses(data, start, (n + 1) as nat));
        }
        n = n + 1;
    }
    items
}

/// Reads `k` four-bit tags as [`read_tags`] describes.
fn read_tag_list(br: &mut BitReader, k: u32) -> (r: Vec<u8>)
    requires
        k <= 15,
        old(br)@.1 + 4 * k <= old(br)@.0.len() * 8,
    ensures
        final(br)@ == (old(br)@.0, (old(br)@.1 + 4 * k) as nat),
        r@ == read_tags(old(br)@.0, old(br)@.1, k as nat),
{
    let mut items: Vec<u8> = Vec::new();
    let mut n: u32 = 0;
    let ghost data = br@.0;
    let ghost start = br@.1;
    while n < k
        invariant
            n <= k <= 15,
            br@.0 == data,
            br@.1 == start + 4 * n,
            start + 4 * k <= data.len() * 8,
            items@ == read_tags(data, start, n as nat),
        decreases k - n,
    {
        let tag = take_bits(br, 4);
        proof {
            reveal_with_fuel(two_pow, 5);
        }
        items.push(tag as u8);
        proof {
            assert(items@ =~= read_tags(data, start, (n + 1) as nat));
        }
        n = n + 1;
    }
    items
}

/// Reads `k` coupling channel addresses as [`read_cces`] describes.
fn read_cce_list(br: &mut BitReader, k: u32) -> (r: Vec<CceAddress>)
    requires
        k <= 15,
        old(br)@.1 + 5 * k <= old(br)@.0.len() * 8,
    ensures
        final(br)@ == (old(br)@.0, (old(br)@.1 + 5 * k) as nat),
        r@ == read_cces(old(br)@.0, old(br)@.1, k as nat),
{
    let mut items: Vec<CceAddress> = Vec::new();
    let mut n: u32 = 0;
    let ghost data = br@.0;
    let ghost start = br@.1;
    while n < k
        invariant
            n <= k <= 15,
            br@.0 == data,
            br@.1 == start + 5 * n,
            start + 5 * k <= data.len() * 8,
            items@ == read_cces(data, start, n as nat),
        decreases k - n,
    {
        let is_ind_sw = take_bits(br, 1);
        let tag = take_bits(br, 4);
        proof {
            reveal_with_fuel(two_pow, 5);
            reveal_with_fuel(bits_at, 2);
        }
        items.push(CceAddress { is_ind_sw: is_ind_sw == 1, tag: tag as u8 });
        proof {
            assert(items@ =~= read_cces(data, start, (n + 1) as nat));
        }
        n = n + 1;
    }
    items
}

/// Reads the element counts of a program config element as
/// [`pce_header_at`] describes, leaving the reader at its first element.
#[verifier::loop_isolation(false)]
#[verifier::spinoff_prover]
fn read_pce_header(br: &mut BitReader, sfi: u8) -> (r: Option<(u32, u32, u32, u32, u32, u32)>)
    requires
        sfi < 16,
    ensures
        final(br)@.0 == old(br)@.0,
        match pce_header_at(old(br)@.0, old(br)@.1, sfi as nat) {
            None => r is None,
            Some((counts, i)) => r matches Some(c) && counts == (
                c.0 as nat,
                c.1 as nat,
                c.2 as nat,
                c.3 as nat,
                c.4 as nat,
                c.5 as nat,
            ) && final(br)@.1 == i,
        },
        r matches Some(c) ==> c.0 <= 15 && c.1 <= 15 && c.2 <= 15 && c.3 <= 3 && c.4 <= 7 && c.5
            <= 15,
{
    let ghost f = br@.0;
    if br.bits() < 34 {
        return None;
    }
    br.skip(6);
    let pce_sfi = take_bits(br, 4);
    if pce_sfi != sfi as u32 {
        return None;
    }
    let num_front = take_bits(br, 4);
    let num_side = take_bits(br, 4);
    let num_back = take_bits(br, 4);
    let num_lfe = take_bits(br, 2);
    let num_assoc_data = take_bits(br, 3);
    let num_cc = take_bits(br, 4);
    proof {
        reveal_with_fuel(two_pow, 5);
        reveal_with_fuel(bits_at, 2);
    }
    if take_bits(br, 1) == 1 {
        return None;
    }
    if take_bits(br, 1) == 1 {
        return None;
    }
    if take_bits(br, 1) == 1 {
        br.skip(3);
    }
    if br.bits() < 5 * (num_front + num_side + num_back + num_cc) as usize + 4 * (num_lfe
        + num_assoc_data + num_cc) as usize {
        return None;
    }
    Some((num_front, num_side, num_back, num_lfe, num_assoc_data, num_cc))
}

/// Reads the element lists of a program config element whose counts are
/// `counts`, as [`read_elements`] describes.
#[verifier::spinoff_prover]
fn read_pce_elements(br: &mut BitReader, counts: (u32, u32, u32, u32, u32, u32)) -> (r:
    ProgramConfig)
    requires
        counts.0 <= 15 && counts.1 <= 15 && counts.2 <= 15 && counts.3 <= 3 && counts.4 <= 7
            && counts.5 <= 15,
        old(br)@.1 + 5 * (counts.0 + counts.1 + counts.2 + counts.5) + 4 * (counts.3 + counts.4)
            <= old(br)@.0.len() * 8,
    ensures
        r@ == read_elements(
            old(br)@.0,
            old(br)@.1,
            (
                counts.0 as nat,
                counts.1 as nat,
                counts.2 as nat,
                counts.3 as nat,
                counts.4 as nat,
                counts.5 as nat,
            ),
        ),
{
    let (num_front, num_side, num_back, num_lfe, num_assoc_data, num_cc) = counts;
    let front = read_address_list(br, num_front);
    let side = read_address_list(br, num_side);
    let back = read_address_list(br, num_back);
    let lfe = read_tag_list(br, num_lfe);
    let assoc_data = read_tag_list(br, num_assoc_data);
    let cc = read_cce_list(br, num_cc);
    ProgramConfig {
        front_elements: addresses_from_vec(front),
        side_elements: addresses_from_vec(side),
        back_elements: addresses_from_vec(back),
        lfe_elements: tags3_from_vec(lfe),
        assoc_data_elements: tags7_from_vec(assoc_data),
        cc_elements: cces_from_vec(cc),
    }
}

/// Reads a program config element as [`pce_at`] describes, from just after
/// its element id, for a frame of sampling index `sfi`.
fn read_pce(br: &mut BitReader, sfi: u8) -> (r: Option<ProgramConfig>)
    requires
        sfi < 16,
    ensures
        match pce_at(old(br)@.0, old(br)@.1, sfi as nat) {
            None => r is None,
            Some(v) => r matches Some(pc) && pc@ == v,
        },
{
    match read_pce_header(br, sfi) {
        Some(counts) => Some(read_pce_elements(br, counts)),
        None => None,
    }
}

/// Reads the ADTS header at the start of `f` as [`frame_at`] describes.
#[verifier::loop_isolation(false)]
#[verifier::spinoff_prover]
fn read_frame(f: &[u8]) -> (r: Option<Frame>)
    requires
        f@.len() * 8 <= usize::MAX,
    ensures
        match frame_at(f@) {
            None => r is None,
            Some(v) => r matches Some(fr) && fr@ == v,
        },
{
    let mut br = BitReader::new(f);
    if br.bits() < 56 {
        return None;
    }
    br.skip(15);
    let protection_absent = take_bits(&mut br, 1) == 1;
    let profile = take_bits(&mut br, 2);
    if profile != 1 {
        return None;
    }
    let sfi = take_bits(&mut br, 4);
    proof {
        reveal_with_fuel(two_pow, 5);
        reveal_with_fuel(bits_at, 2);
    }
    let sampling_frequency = match SamplingFrequency::new(sfi as u8) {
        Some(sf) => sf,
        None => {
            return None;
        },
    };
    br.skip(1);
    let channel_configuration = take_bits(&mut br, 3);
    if channel_configuration > 6 {
        return None;
    }
    br.skip(4);
    let aac_frame_length = take_bits(&mut br, 13);
    if aac_frame_length < 7 {
        return None;
    }
    proof {
        reveal_with_fuel(two_pow, 14);
    }
    br.skip(11);
    let num_blocks = take_bits(&mut br, 2);
    if num_blocks != 0 {
        return None;
    }
    let crc = if protection_absent {
        None
    } else {
        match br.read_inside::<16>() {
            Some(v) => {
                proof {
                    lemma_bits_bound(f@, 56, 16, 0);
                    reveal_with_fuel(two_pow, 17);
                }
                Some(v as u16)
            },
            None => {
                return None;
            },
        }
    };
    let program_config = match br.read::<3>() {
        Some(id) => {
            if id == ID_PCE {
                match read_pce(&mut br, sfi as u8) {
                    Some(pc) => Some(pc),
                    None => {
                        return None;
                    },
                }
            } else {
                if channel_configuration == 0 {
                    return None;
                }
                None
            }
        },
        None => {
            if channel_configuration == 0 {
                return None;
            }
            None
        },
    };
    Some(
        Frame {
            sampling_frequency,
            channel_configuration: channel_configuration as u8,
            aac_frame_length: aac_frame_length as u16,
            crc,
            program_config,
        },
    )
}

impl Frame {
    /// Finds the first ADTS header in `buf` and reads it, with its program
    /// config element when one follows.
    pub fn find(buf: &[u8]) -> (r: Option<Frame>)
        requires
            buf@.len() * 8 <= usize::MAX,
        ensures
            match frame_in(buf@) {
                None => r is None,
                Some(v) => r matches Some(fr) && fr@ == v,
            },
    {
        let mut rest: &[u8] = buf;
        let ghost mut off: int = 0;
        let ghost s = buf@;
        loop
            invariant
                0 <= off <= s.len(),
                rest@ == s.subrange(off, s.len() as int),
                first_sync(s, 0) == first_sync(s, off),
                s == buf@,
            ensures
                rest@ == s.subrange(off, s.len() as int),
                first_sync(s, 0) == Some(off),
            decreases rest@.len(),
        {
            proof {
                lemma_first_occurrence(rest@, seq![0xFFu8]);
            }
            let rest_len = rest.len();
            let pos = match find_byte(0xFF, rest) {
                Some(p) => p,
                None => {
                    proof {
                        assert forall|j: int| off <= j < s.len() implies s[j] != 0xFF by {
                            if s[j] == 0xFF {
                                assert(rest@.subrange(j - off, j - off + 1) =~= seq![0xFFu8]);
                                assert(occurs_at(rest@, seq![0xFFu8], j - off));
                            }
                        }
                        lemma_first_sync_skip(s, off, s.len() as int);
                    }
                    return None;
                },
            };
            proof {
                assert forall|j: int| off <= j < off + pos implies s[j] != 0xFF by {
                    if s[j] == 0xFF {
                        assert(rest@.subrange(j - off, j - off + 1) =~= seq![0xFFu8]);
                        assert(occurs_at(rest@, seq![0xFFu8], j - off));
                    }
                }
                let i = first_occurrence(rest@, seq![0xFFu8]).unwrap();
                assert(occurs_at(rest@, seq![0xFFu8], i));
                assert(seq![0xFFu8].len() == 1);
                assert(0 <= i < rest@.len());
                assert(i == pos);
                assert(occurs_at(rest@, seq![0xFFu8], i));
                assert(rest@.subrange(i, i + 1)[0] == rest@[i]);
                assert(rest@[pos as int] == 0xFF);
                lemma_first_sync_skip(s, off, off + pos);
            }
            rest = &rest[pos..rest.len()];
            proof {
                off = off + pos;
                assert(rest@ =~= s.subrange(off, s.len() as int));
            }
            if rest.len() < 2 {
                return None;
            }
            if rest[1] & 0xF6 == 0xF0 {
                break;
            }
            rest = &rest[1..rest.len()];
            proof {
                off = off + 1;
                assert(rest@ =~= s.subrange(off, s.len() as int));
            }
        }
        read_frame(rest)
    }

    /// The number of channels: the channel configuration, or for
    /// configuration 0 the channels that the program config element assigns.
    pub fn num_channels(&self) -> (r: u8)
        requires
            (self.channel_configuration == 0 && self.program_config is Some) || (1
                <= self.channel_configuration <= 6),
        ensures
            r == match self.program_config {
                Some(pc) if self.channel_configuration == 0 => pce_channels(pc@),
                _ => self.channel_configuration as nat,
            },
    {
        if self.channel_configuration != 0 {
            return self.channel_configuration;
        }
        match &self.program_config {
            Some(pc) => {
                let front = address_channel_count(address_slice(&pc.front_elements));
                let side = address_channel_count(address_slice(&pc.side_elements));
                let back = address_channel_count(address_slice(&pc.back_elements));
                let lfe = tag3_slice(&pc.lfe_elements).len() as u8;
                front + side + back + lfe
            },
            None => 0,
        }
    }
}

/// The number of channels of the speaker elements `v`.
fn address_channel_count(v: &[Address]) -> (r: u8)
    requires
        v@.len() <= 15,
    ensures
        r == address_channels(v@),
        r <= 30,
{
    let mut n: u8 = 0;
    let mut i: usize = 0;
    while i < v.len()
        invariant
            i <= v@.len() <= 15,
            n == address_channels(v@.subrange(0, i as int)),
            n <= 2 * i,
        decreases v@.len() - i,
    {
        let c: u8 = match v[i] {
            Address::Cpe(_) => 2,
            Address::Sce(_) => 1,
        };
        proof {
            assert(v@.subrange(0, i + 1).drop_last() =~= v@.subrange(0, i as int));
        }
        n = n + c;
        i = i + 1;
    }
    assert(v@.subrange(0, v@.len() as int) =~= v@);
    n
}
} // verus!
