//! Descriptors defined by ARIB STD-B10, with their related types.

use vstd::prelude::*;
use vstd::std_specs::convert::FromSpecImpl;

use crate::isdb::lang::{lang_at, LangCode};
use crate::isdb::pid::{pid_at, Pid};
use crate::isdb::psi::table::{EventId, NetworkId, ServiceId, TransportStreamId};
use crate::isdb::str::AribStr;
use crate::isdb::time::{date_time_at, hex_digit, DateTime, MjdDate};
use crate::isdb::utils::{
    bcd, be16, be16_at, be32, be32_at, push_char, read_bcd, skip, split_at_checked, tail,
};

use super::base::Descriptor;
use super::iso::{be16_words, read_be16_words, ServiceType};

verus! {

/// A stream type.
#[derive(Debug, Clone, Copy, PartialEq, Eq, Structural)]
pub struct StreamType(pub u8);

/// The text of the stream type `v`: `StreamType(0x`, its two upper-case
/// hexadecimal digits, then `)`.
pub open spec fn stream_type_text(v: u8) -> Seq<char> {
    "StreamType(0x"@ + seq![hex_digit((v / 16) as nat), hex_digit((v % 16) as nat), ')']
}

impl StreamType {
    /// ISO/IEC 11172-2 video.
    pub const MPEG1_VIDEO: u8 = 0x01;
    /// ITU-T H.262 | ISO/IEC 13818-2 video.
    pub const MPEG2_VIDEO: u8 = 0x02;
    /// ISO/IEC 11172-3 audio.
    pub const MPEG1_AUDIO: u8 = 0x03;
    /// ISO/IEC 13818-3 audio.
    pub const MPEG2_AUDIO: u8 = 0x04;
    /// ITU-T H.222.0 | ISO/IEC 13818-1 private sections.
    pub const PRIVATE_SECTIONS: u8 = 0x05;
    /// PES packets holding private data.
    pub const PRIVATE_DATA: u8 = 0x06;
    /// ISO/IEC 13522 MHEG.
    pub const MHEG: u8 = 0x07;
    /// ISO/IEC 13818-1 annex A DSM-CC.
    pub const DSM_CC: u8 = 0x08;
    /// ITU-T H.222.1.
    pub const ITU_T_REC_H222_1: u8 = 0x09;
    /// ISO/IEC 13818-6 type A.
    pub const ISO_IEC_13818_6_TYPE_A: u8 = 0x0A;
    /// ISO/IEC 13818-6 type B.
    pub const ISO_IEC_13818_6_TYPE_B: u8 = 0x0B;
    /// ISO/IEC 13818-6 type C.
    pub const ISO_IEC_13818_6_TYPE_C: u8 = 0x0C;
    /// ISO/IEC 13818-6 type D.
    pub const ISO_IEC_13818_6_TYPE_D: u8 = 0x0D;
    /// Other ISO/IEC 13818-1 data.
    pub const ISO_IEC_13818_1_AUXILIARY: u8 = 0x0E;
    /// ISO/IEC 13818-7 audio (ADTS).
    pub const AAC: u8 = 0x0F;
    /// ISO/IEC 14496-2 video.
    pub const MPEG4_VISUAL: u8 = 0x10;
    /// ISO/IEC 14496-3 audio (LATM).
    pub const MPEG4_AUDIO: u8 = 0x11;
    /// ISO/IEC 14496-1 SL-packetized or FlexMux stream in PES packets.
    pub const ISO_IEC_14496_1_IN_PES: u8 = 0x12;
    /// ISO/IEC 14496-1 SL-packetized or FlexMux stream in sections.
    pub const ISO_IEC_14496_1_IN_SECTIONS: u8 = 0x13;
    /// ISO/IEC 13818-6 synchronized download protocol.
    pub const ISO_IEC_13818_6_DOWNLOAD: u8 = 0x14;
    /// Metadata in PES packets.
    pub const METADATA_IN_PES: u8 = 0x15;
    /// Metadata in metadata sections.
    pub const METADATA_IN_SECTIONS: u8 = 0x16;
    /// Metadata in an ISO/IEC 13818-6 data carousel.
    pub const METADATA_IN_DATA_CAROUSEL: u8 = 0x17;
    /// Metadata in an ISO/IEC 13818-6 object carousel.
    pub const METADATA_IN_OBJECT_CAROUSEL: u8 = 0x18;
    /// Metadata in the ISO/IEC 13818-6 synchronized download protocol.
    pub const METADATA_IN_DOWNLOAD_PROTOCOL: u8 = 0x19;
    /// IPMP stream.
    pub const IPMP: u8 = 0x1A;
    /// AVC video.
    pub const H264: u8 = 0x1B;
    /// HEVC video.
    pub const H265: u8 = 0x24;
    /// ISO/IEC user private.
    pub const USER_PRIVATE: u8 = 0x80;
    /// Dolby AC-3.
    pub const AC3: u8 = 0x81;
    /// DTS.
    pub const DTS: u8 = 0x82;
    /// Dolby TrueHD.
    pub const TRUEHD: u8 = 0x83;
    /// Dolby Digital Plus.
    pub const DOLBY_DIGITAL_PLUS: u8 = 0x87;
    /// Uninitialized.
    pub const UNINITIALIZED: u8 = 0x00;
    /// Invalid.
    pub const INVALID: u8 = 0xFF;
    /// Captions.
    pub const CAPTION: u8 = 0x06;
    /// Data broadcasting.
    pub const DATA_CARROUSEL: u8 = 0x0D;

    /// Whether `v` is a defined stream type.
    pub open spec fn spec_is_known(v: u8) -> bool {
        (0x01 <= v <= 0x1B) || v == 0x24 || (0x80 <= v <= 0x83) || v == 0x87
    }

    /// Whether `v` is a video stream type.
    pub open spec fn spec_is_video(v: u8) -> bool {
        v == 0x01 || v == 0x02 || v == 0x10 || v == 0x1B || v == 0x24
    }

    /// Whether `v` is an audio stream type.
    pub open spec fn spec_is_audio(v: u8) -> bool {
        v == 0x03 || v == 0x04 || v == 0x0F || v == 0x11 || v == 0x81 || v == 0x82 || v == 0x83
            || v == 0x87
    }

    /// The stream type as `StreamType(0x..)`, with two upper-case
    /// hexadecimal digits.
    pub fn to_debug_string(&self) -> (r: String)
        ensures
            r@ == stream_type_text(self.0),
    {
        let mut s = String::from_str("StreamType(0x");
        let hi: u8 = self.0 / 16;
        let lo: u8 = self.0 % 16;
        let h: u8 = if hi < 10 { 48 + hi } else { 55 + hi };
        let l: u8 = if lo < 10 { 48 + lo } else { 55 + lo };
        push_char(&mut s, h as char);
        push_char(&mut s, l as char);
        push_char(&mut s, ')');
        s
    }

    /// Returns whether this is a defined stream type.
    pub fn is_known(&self) -> (r: bool)
        ensures
            r == Self::spec_is_known(self.0),
    {
        let v = self.0;
        (0x01 <= v && v <= 0x1B) || v == 0x24 || (0x80 <= v && v <= 0x83) || v == 0x87
    }

    /// Returns whether this stream type is a video one.
    pub fn is_video(&self) -> (r: bool)
        ensures
            r == Self::spec_is_video(self.0),
    {
        let v = self.0;
        v == 0x01 || v == 0x02 || v == 0x10 || v == 0x1B || v == 0x24
    }

    /// Returns whether this stream type is an audio one.
    pub fn is_audio(&self) -> (r: bool)
        ensures
            r == Self::spec_is_audio(self.0),
    {
        let v = self.0;
        v == 0x03 || v == 0x04 || v == 0x0F || v == 0x11 || v == 0x81 || v == 0x82 || v == 0x83
            || v == 0x87
    }
}

/// Network name descriptor.
#[derive(Debug)]
pub struct NetworkNameDescriptor<'a> {
    /// Network name.
    pub network_name: AribStr<'a>,
}

impl<'a> Descriptor<'a> for NetworkNameDescriptor<'a> {
    const TAG: u8 = 0x40;

    open spec fn spec_readable(data: Seq<u8>) -> bool {
        true
    }

    open spec fn spec_decodes(data: Seq<u8>, d: Self) -> bool {
        d.network_name@ == data
    }

    fn read(data: &'a [u8]) -> (r: Option<NetworkNameDescriptor<'a>>) {
        Some(NetworkNameDescriptor { network_name: AribStr::from_bytes(data) })
    }
}

/// Cable delivery system descriptor.
#[derive(Debug, Clone, PartialEq, Eq)]
pub struct CableDeliverySystemDescriptor {
    /// Frequency, in units of 100 Hz.
    pub frequency: u32,
    /// Frame type (4 bits).
    pub frame_type: u8,
    /// Outer FEC (4 bits).
    pub fec_outer: u8,
    /// Modulation.
    pub modulation: u8,
    /// Symbol rate.
    pub symbol_rate: u32,
    /// Inner FEC (4 bits).
    pub fec_inner: u8,
}

impl Descriptor<'_> for CableDeliverySystemDescriptor {
    const TAG: u8 = 0x44;

    open spec fn spec_readable(data: Seq<u8>) -> bool {
        data.len() == 11
    }

    open spec fn spec_decodes(data: Seq<u8>, d: Self) -> bool {
        &&& d.frequency == bcd(data, 8)
        &&& d.frame_type == (data[5] & 0xF0) >> 4
        &&& d.fec_outer == data[5] & 0x0F
        &&& d.modulation == data[6]
        &&& d.symbol_rate == bcd(data.subrange(7, 11), 7)
        &&& d.fec_inner == data[10] & 0x0F
    }

    fn read(data: &[u8]) -> (r: Option<CableDeliverySystemDescriptor>) {
        if data.len() != 11 {
            return None;
        }
        Some(
            CableDeliverySystemDescriptor {
                frequency: read_bcd(data, 8),
                frame_type: (data[5] & 0xF0) >> 4,
                fec_outer: data[5] & 0x0F,
                modulation: data[6],
                symbol_rate: read_bcd(&data[7..11], 7),
                fec_inner: data[10] & 0x0F,
            },
        )
    }
}

/// Service descriptor.
#[derive(Debug)]
pub struct ServiceDescriptor<'a> {
    /// Service type.
    pub service_type: ServiceType,
    /// Service provider name.
    pub service_provider_name: AribStr<'a>,
    /// Service name.
    pub service_name: AribStr<'a>,
}

impl<'a> Descriptor<'a> for ServiceDescriptor<'a> {
    const TAG: u8 = 0x48;

    open spec fn spec_readable(data: Seq<u8>) -> bool {
        &&& data.len() >= 3 + data[1]
        &&& data.len() == 3 + data[1] + data[2 + data[1]]
    }

    open spec fn spec_decodes(data: Seq<u8>, d: Self) -> bool {
        &&& d.service_type.0 == data[0]
        &&& d.service_provider_name@ == data.subrange(2, 2 + data[1])
        &&& d.service_name@ == tail(data, 3 + data[1])
    }

    fn read(data: &'a [u8]) -> (r: Option<ServiceDescriptor<'a>>) {
        if data.len() < 2 {
            return None;
        }
        let p = data[1] as usize;
        if data.len() - 2 < p + 1 {
            return None;
        }
        let n = data[2 + p] as usize;
        if data.len() - (3 + p) != n {
            return None;
        }
        Some(
            ServiceDescriptor {
                service_type: ServiceType(data[0]),
                service_provider_name: AribStr::from_bytes(&data[2..2 + p]),
                service_name: AribStr::from_bytes(skip(data, 3 + p)),
            },
        )
    }
}

/// Linkage descriptor.
#[derive(Debug)]
pub struct LinkageDescriptor<'a> {
    /// Transport stream identifier.
    pub transport_stream_id: TransportStreamId,
    /// Original network identifier.
    pub original_network_id: NetworkId,
    /// Service identifier.
    pub service_id: ServiceId,
    /// Linkage type.
    pub linkage_type: u8,
    /// Private data.
    pub private_data: &'a [u8],
}

impl<'a> Descriptor<'a> for LinkageDescriptor<'a> {
    const TAG: u8 = 0x4A;

    open spec fn spec_readable(data: Seq<u8>) -> bool {
        &&& data.len() >= 7
        &&& be16(data, 0) != 0
        &&& be16(data, 2) != 0
        &&& be16(data, 4) != 0
    }

    open spec fn spec_decodes(data: Seq<u8>, d: Self) -> bool {
        &&& d.transport_stream_id@ == be16(data, 0)
        &&& d.original_network_id@ == be16(data, 2)
        &&& d.service_id@ == be16(data, 4)
        &&& d.linkage_type == data[6]
        &&& d.private_data@ == tail(data, 7)
    }

    fn read(data: &'a [u8]) -> (r: Option<LinkageDescriptor<'a>>) {
        if data.len() < 7 {
            return None;
        }
        let transport_stream_id = TransportStreamId::new(be16_at(data, 0))?;
        let original_network_id = NetworkId::new(be16_at(data, 2))?;
        let service_id = ServiceId::new(be16_at(data, 4))?;
        Some(
            LinkageDescriptor {
                transport_stream_id,
                original_network_id,
                service_id,
                linkage_type: data[6],
                private_data: skip(data, 7),
            },
        )
    }
}

/// Short event descriptor.
#[derive(Debug)]
pub struct ShortEventDescriptor<'a> {
    /// Language code.
    pub lang_code: LangCode,
    /// Event name.
    pub event_name: AribStr<'a>,
    /// Event description.
    pub text: AribStr<'a>,
}

impl<'a> Descriptor<'a> for ShortEventDescriptor<'a> {
    const TAG: u8 = 0x4D;

    open spec fn spec_readable(data: Seq<u8>) -> bool {
        &&& data.len() >= 5 + data[3]
        &&& data.len() == 5 + data[3] + data[4 + data[3]]
    }

    open spec fn spec_decodes(data: Seq<u8>, d: Self) -> bool {
        &&& d.lang_code.bytes() == lang_at(data, 0)
        &&& d.event_name@ == data.subrange(4, 4 + data[3])
        &&& d.text@ == tail(data, 5 + data[3])
    }

    fn read(data: &'a [u8]) -> (r: Option<ShortEventDescriptor<'a>>) {
        if data.len() < 4 {
            return None;
        }
        let e = data[3] as usize;
        if data.len() - 4 < e + 1 {
            return None;
        }
        let t = data[4 + e] as usize;
        if data.len() - (5 + e) != t {
            return None;
        }
        Some(
            ShortEventDescriptor {
                lang_code: LangCode::read_at(data, 0),
                event_name: AribStr::from_bytes(&data[4..4 + e]),
                text: AribStr::from_bytes(skip(data, 5 + e)),
            },
        )
    }
}

/// An item of an extended event descriptor.
#[derive(Debug)]
pub struct ExtendedEventItem<'a> {
    /// Item name.
    pub item_description: AribStr<'a>,
    /// Item text.
    pub item: AribStr<'a>,
}

impl<'a> View for ExtendedEventItem<'a> {
    type V = (Seq<u8>, Seq<u8>);

    open spec fn view(&self) -> (Seq<u8>, Seq<u8>) {
        (self.item_description@, self.item@)
    }
}

/// The length in bytes of the item at the start of `s`.
pub open spec fn item_len(s: Seq<u8>) -> int {
    2 + s[0] + s[1 + s[0]]
}

/// The items coded in `s`, as name and text, or `None` when `s` is not a
/// sequence of complete items.
pub open spec fn items_of(s: Seq<u8>) -> Option<Seq<(Seq<u8>, Seq<u8>)>>
    decreases s.len(),
{
    if s.len() == 0 {
        Some(Seq::empty())
    } else if s.len() < 2 + s[0] || s.len() < item_len(s) {
        None
    } else {
        match items_of(tail(s, item_len(s))) {
            Some(rest) => Some(
                seq![(s.subrange(1, 1 + s[0]), s.subrange(2 + s[0], item_len(s)))] + rest,
            ),
            None => None,
        }
    }
}

/// Extended event descriptor.
#[derive(Debug)]
pub struct ExtendedEventDescriptor<'a> {
    /// Descriptor number (4 bits).
    pub descriptor_number: u8,
    /// Last descriptor number (4 bits).
    pub last_descriptor_number: u8,
    /// Language code.
    pub lang_code: LangCode,
    /// Items.
    pub items: Vec<ExtendedEventItem<'a>>,
    /// Extended description.
    pub text: AribStr<'a>,
}

fn read_extended_event_items<'a>(data: &'a [u8]) -> (r: Option<Vec<ExtendedEventItem<'a>>>)
    ensures
        r is Some <==> items_of(data@) is Some,
        r matches Some(v) ==> items_of(data@) == Some(
            v@.map_values(|x: ExtendedEventItem<'a>| x@),
        ),
{
    let mut items: Vec<ExtendedEventItem<'a>> = Vec::new();
    let mut rest = data;
    while rest.len() != 0
        invariant
            items_of(data@) == match items_of(rest@) {
                Some(r) => Some(items@.map_values(|x: ExtendedEventItem<'a>| x@) + r),
                None => None::<Seq<(Seq<u8>, Seq<u8>)>>,
            },
        decreases rest@.len(),
    {
        let d = rest[0] as usize;
        if rest.len() - 1 < d + 1 {
            return None;
        }
        let n = rest[1 + d] as usize;
        if rest.len() - (2 + d) < n {
            return None;
        }
        let item = ExtendedEventItem {
            item_description: AribStr::from_bytes(&rest[1..1 + d]),
            item: AribStr::from_bytes(&rest[2 + d..2 + d + n]),
        };
        let next = skip(rest, 2 + d + n);
        let ghost old_view = items@.map_values(|x: ExtendedEventItem<'a>| x@);
        let ghost head = (rest@.subrange(1, 1 + d), rest@.subrange(2 + d, item_len(rest@)));
        items.push(item);
        proof {
            assert(items@.map_values(|x: ExtendedEventItem<'a>| x@) =~= old_view.push(head));
            if let Some(r) = items_of(next@) {
                assert(old_view + (seq![head] + r) =~= old_view.push(head) + r);
            }
        }
        rest = next;
    }
    proof {
        assert(items@.map_values(|x: ExtendedEventItem<'a>| x@) + Seq::<(Seq<u8>, Seq<u8>)>::empty()
            =~= items@.map_values(|x: ExtendedEventItem<'a>| x@));
    }
    Some(items)
}

impl<'a> Descriptor<'a> for ExtendedEventDescriptor<'a> {
    const TAG: u8 = 0x4E;

    open spec fn spec_readable(data: Seq<u8>) -> bool {
        &&& data.len() >= 6 + data[4]
        &&& items_of(data.subrange(5, 5 + data[4])) is Some
        &&& data.len() == 6 + data[4] + data[5 + data[4]]
    }

    open spec fn spec_decodes(data: Seq<u8>, d: Self) -> bool {
        &&& d.descriptor_number == (data[0] & 0xF0) >> 4
        &&& d.last_descriptor_number == data[0] & 0x0F
        &&& d.lang_code.bytes() == lang_at(data, 1)
        &&& items_of(data.subrange(5, 5 + data[4])) == Some(
            d.items@.map_values(|x: ExtendedEventItem<'a>| x@),
        )
        &&& d.text@ == tail(data, 6 + data[4])
    }

    fn read(data: &'a [u8]) -> (r: Option<ExtendedEventDescriptor<'a>>) {
        if data.len() < 5 {
            return None;
        }
        let l = data[4] as usize;
        if data.len() - 5 < l + 1 {
            return None;
        }
        let items = read_extended_event_items(&data[5..5 + l])?;
        let t = data[5 + l] as usize;
        if data.len() - (6 + l) != t {
            return None;
        }
        Some(
            ExtendedEventDescriptor {
                descriptor_number: (data[0] & 0xF0) >> 4,
                last_descriptor_number: data[0] & 0x0F,
                lang_code: LangCode::read_at(data, 1),
                items,
                text: AribStr::from_bytes(skip(data, 6 + l)),
            },
        )
    }
}

/// Component descriptor.
#[derive(Debug)]
pub struct ComponentDescriptor<'a> {
    /// Stream content (4 bits).
    pub stream_content: u8,
    /// Component type.
    pub component_type: u8,
    /// Component tag.
    pub component_tag: u8,
    /// Language code.
    pub lang_code: LangCode,
    /// Component description.
    pub text: AribStr<'a>,
}

impl<'a> Descriptor<'a> for ComponentDescriptor<'a> {
    const TAG: u8 = 0x50;

    open spec fn spec_readable(data: Seq<u8>) -> bool {
        data.len() >= 6
    }

    open spec fn spec_decodes(data: Seq<u8>, d: Self) -> bool {
        &&& d.stream_content == data[0] & 0x0F
        &&& d.component_type == data[1]
        &&& d.component_tag == data[2]
        &&& d.lang_code.bytes() == lang_at(data, 3)
        &&& d.text@ == tail(data, 6)
    }

    fn read(data: &'a [u8]) -> (r: Option<ComponentDescriptor<'a>>) {
        if data.len() < 6 {
            return None;
        }
        Some(
            ComponentDescriptor {
                stream_content: data[0] & 0x0F,
                component_type: data[1],
                component_tag: data[2],
                lang_code: LangCode::read_at(data, 3),
                text: AribStr::from_bytes(skip(data, 6)),
            },
        )
    }
}

/// Stream identifier descriptor.
#[derive(Debug, Clone, PartialEq, Eq)]
pub struct StreamIdDescriptor {
    /// Component tag.
    pub component_tag: u8,
}

impl Descriptor<'_> for StreamIdDescriptor {
    const TAG: u8 = 0x52;

    open spec fn spec_readable(data: Seq<u8>) -> bool {
        data.len() == 1
    }

    open spec fn spec_decodes(data: Seq<u8>, d: Self) -> bool {
        d.component_tag == data[0]
    }

    fn read(data: &[u8]) -> (r: Option<StreamIdDescriptor>) {
        if data.len() != 1 {
            return None;
        }
        Some(StreamIdDescriptor { component_tag: data[0] })
    }
}

/// A content genre.
#[derive(Debug, Clone, Copy, PartialEq, Eq, Structural)]
pub struct ContentGenre {
    /// Large genre classification (4 bits).
    pub large_genre_classification: u8,
    /// Middle genre classification (4 bits).
    pub middle_genre_classification: u8,
    /// User genre (4 bits).
    pub user_genre_1: u8,
    /// User genre (4 bits).
    pub user_genre_2: u8,
}

/// The genre coded in the two bytes at offset `i` of `s`.
pub open spec fn genre_at(s: Seq<u8>, i: int) -> ContentGenre {
    ContentGenre {
        large_genre_classification: (s[i] & 0xF0) >> 4,
        middle_genre_classification: s[i] & 0x0F,
        user_genre_1: (s[i + 1] & 0xF0) >> 4,
        user_genre_2: s[i + 1] & 0x0F,
    }
}

/// Content descriptor.
#[derive(Debug, Clone, PartialEq, Eq)]
pub struct ContentDescriptor {
    /// The genres.
    pub genres: Vec<ContentGenre>,
}

impl Descriptor<'_> for ContentDescriptor {
    const TAG: u8 = 0x54;

    open spec fn spec_readable(data: Seq<u8>) -> bool {
        data.len() <= 14
    }

    open spec fn spec_decodes(data: Seq<u8>, d: Self) -> bool {
        d.genres@ == Seq::new((data.len() / 2) as nat, |i: int| genre_at(data, 2 * i))
    }

    fn read(data: &[u8]) -> (r: Option<ContentDescriptor>) {
        if data.len() > 14 {
            return None;
        }
        let mut genres: Vec<ContentGenre> = Vec::new();
        let mut pos: usize = 0;
        while data.len() - pos >= 2
            invariant
                pos % 2 == 0,
                pos <= data@.len(),
                genres@.len() == pos / 2,
                forall|j: int| 0 <= j < genres@.len() ==> genres@[j] == genre_at(data@, 2 * j),
            decreases data@.len() - pos,
        {
            genres.push(
                ContentGenre {
                    large_genre_classification: (data[pos] & 0xF0) >> 4,
                    middle_genre_classification: data[pos] & 0x0F,
                    user_genre_1: (data[pos + 1] & 0xF0) >> 4,
                    user_genre_2: data[pos + 1] & 0x0F,
                },
            );
            pos = pos + 2;
        }
        assert(genres@ =~= Seq::new((data@.len() / 2) as nat, |i: int| genre_at(data@, 2 * i)));
        Some(ContentDescriptor { genres })
    }
}

/// A local time offset.
#[derive(Debug, Clone, Copy, PartialEq, Eq)]
pub struct LocalTimeOffsetEntry {
    /// Country code.
    pub country_code: LangCode,
    /// Country region identifier (6 bits).
    pub country_region_id: u8,
    /// Local time offset polarity.
    pub local_time_offset_polarity: bool,
    /// Local time offset.
    pub local_time_offset: u16,
    /// Time of change.
    pub time_of_change: DateTime,
    /// Next time offset.
    pub next_time_offset: u16,
}

/// Whether `e` is the offset coded in the thirteen bytes at offset `i` of `s`.
pub open spec fn time_offset_at(s: Seq<u8>, i: int, e: LocalTimeOffsetEntry) -> bool {
    &&& e.country_code.bytes() == lang_at(s, i)
    &&& e.country_region_id == (s[i + 3] & 0xFC) >> 2
    &&& e.local_time_offset_polarity == (s[i + 3] & 0x01 != 0)
    &&& e.local_time_offset == be16(s, i + 4)
    &&& e.time_of_change == date_time_at(s, i + 6)
    &&& e.next_time_offset == be16(s, i + 11)
}

/// Local time offset descriptor.
#[derive(Debug, Clone, PartialEq, Eq)]
pub struct LocalTimeOffsetDescriptor {
    /// The time offsets.
    pub time_offsets: Vec<LocalTimeOffsetEntry>,
}

impl Descriptor<'_> for LocalTimeOffsetDescriptor {
    const TAG: u8 = 0x58;

    open spec fn spec_readable(data: Seq<u8>) -> bool {
        true
    }

    open spec fn spec_decodes(data: Seq<u8>, d: Self) -> bool {
        &&& d.time_offsets@.len() == data.len() / 13
        &&& forall|j: int|
            0 <= j < d.time_offsets@.len() ==> time_offset_at(data, 13 * j, #[trigger] d.time_offsets@[j])
    }

    fn read(data: &[u8]) -> (r: Option<LocalTimeOffsetDescriptor>) {
        let mut time_offsets: Vec<LocalTimeOffsetEntry> = Vec::new();
        let mut pos: usize = 0;
        while data.len() - pos >= 13
            invariant
                pos % 13 == 0,
                pos <= data@.len(),
                time_offsets@.len() == pos / 13,
                forall|j: int|
                    0 <= j < time_offsets@.len() ==> time_offset_at(data@, 13 * j, #[trigger] time_offsets@[j]),
            decreases data@.len() - pos,
        {
            time_offsets.push(
                LocalTimeOffsetEntry {
                    country_code: LangCode::read_at(data, pos),
                    country_region_id: (data[pos + 3] & 0xFC) >> 2,
                    local_time_offset_polarity: data[pos + 3] & 0x01 != 0,
                    local_time_offset: be16_at(data, pos + 4),
                    time_of_change: DateTime::read_at(data, pos + 6),
                    next_time_offset: be16_at(data, pos + 11),
                },
            );
            pos = pos + 13;
        }
        Some(LocalTimeOffsetDescriptor { time_offsets })
    }
}

/// Hierarchical transmission descriptor.
#[derive(Debug, Clone, PartialEq, Eq)]
pub struct HierarchicalTransmissionDescriptor {
    /// Hierarchy level.
    pub high_quality: bool,
    /// Reference PID.
    pub reference_pid: Pid,
}

impl Descriptor<'_> for HierarchicalTransmissionDescriptor {
    const TAG: u8 = 0xC0;

    open spec fn spec_readable(data: Seq<u8>) -> bool {
        data.len() == 3
    }

    open spec fn spec_decodes(data: Seq<u8>, d: Self) -> bool {
        &&& d.high_quality == (data[0] & 0x01 != 0)
        &&& d.reference_pid.0 == pid_at(data, 1)
    }

    fn read(data: &[u8]) -> (r: Option<HierarchicalTransmissionDescriptor>) {
        if data.len() != 3 {
            return None;
        }
        Some(
            HierarchicalTransmissionDescriptor {
                high_quality: data[0] & 0x01 != 0,
                reference_pid: Pid::read_at(data, 1),
            },
        )
    }
}

/// Component control information of a digital copy control descriptor.
#[derive(Debug, Clone, Copy, PartialEq, Eq)]
pub struct ComponentControlEntry {
    /// Component tag.
    pub component_tag: u8,
    /// Digital recording control data (2 bits).
    pub digital_recording_control_data: u8,
    /// Copy control type (2 bits).
    pub copy_control_type: u8,
    /// Analog output copy control data (2 bits).
    pub aps_control_data: Option<u8>,
    /// Maximum bit rate.
    pub maximum_bitrate: Option<u8>,
}

/// The analog output copy control data coded in `b`, present when the copy
/// control type is `0b01`.
pub open spec fn aps_of(b: u8) -> Option<u8> {
    if (b & 0x0C) >> 2 == 1 {
        Some(b & 0x03)
    } else {
        None
    }
}

/// The component controls coded in `s`; decoding stops before an entry that
/// lacks its announced maximum bit rate, and ignores a last lone byte.
pub open spec fn component_controls_of(s: Seq<u8>) -> Seq<ComponentControlEntry>
    decreases s.len(),
{
    if s.len() < 2 {
        Seq::empty()
    } else {
        let has_rate = s[1] & 0x20 != 0;
        if has_rate && s.len() < 3 {
            Seq::empty()
        } else {
            let e = ComponentControlEntry {
                component_tag: s[0],
                digital_recording_control_data: (s[1] & 0xC0) >> 6,
                copy_control_type: (s[1] & 0x0C) >> 2,
                aps_control_data: aps_of(s[1]),
                maximum_bitrate: if has_rate {
                    Some(s[2])
                } else {
                    None
                },
            };
            seq![e] + component_controls_of(tail(s, if has_rate { 3 } else { 2 }))
        }
    }
}

fn read_aps(b: u8) -> (r: Option<u8>)
    ensures
        r == aps_of(b),
{
    if (b & 0x0C) >> 2 == 1 {
        Some(b & 0x03)
    } else {
        None
    }
}

fn read_component_controls(data: &[u8]) -> (r: Vec<ComponentControlEntry>)
    ensures
        r@ == component_controls_of(data@),
{
    let mut out: Vec<ComponentControlEntry> = Vec::new();
    let mut rest = data;
    while rest.len() >= 2
        invariant
            component_controls_of(data@) == out@ + component_controls_of(rest@),
        decreases rest@.len(),
    {
        let has_rate = rest[1] & 0x20 != 0;
        if has_rate && rest.len() < 3 {
            assert(component_controls_of(rest@) =~= Seq::<ComponentControlEntry>::empty());
            assert(out@ + component_controls_of(rest@) =~= out@);
            return out;
        }
        let e = ComponentControlEntry {
            component_tag: rest[0],
            digital_recording_control_data: (rest[1] & 0xC0) >> 6,
            copy_control_type: (rest[1] & 0x0C) >> 2,
            aps_control_data: read_aps(rest[1]),
            maximum_bitrate: if has_rate {
                Some(rest[2])
            } else {
                None
            },
        };
        let next = skip(rest, if has_rate { 3 } else { 2 });
        let ghost prev = out@;
        out.push(e);
        assert(prev + component_controls_of(rest@) =~= out@ + component_controls_of(next@));
        rest = next;
    }
    assert(out@ + component_controls_of(rest@) =~= out@);
    out
}

/// Digital copy control descriptor.
#[derive(Debug, Clone, PartialEq, Eq)]
pub struct DigitalCopyControlDescriptor {
    /// Digital recording control data (2 bits).
    pub digital_recording_control_data: u8,
    /// Copy control type (2 bits).
    pub copy_control_type: u8,
    /// Analog output copy control data (2 bits).
    pub aps_control_data: Option<u8>,
    /// Maximum bit rate.
    pub maximum_bitrate: Option<u8>,
    /// Per-component digital copy control information.
    pub component_controls: Option<Vec<ComponentControlEntry>>,
}

/// Where the component control length stands in a digital copy control descriptor.
pub open spec fn dcc_cc_offset(data: Seq<u8>) -> int {
    if data[0] & 0x20 != 0 {
        2
    } else {
        1
    }
}

impl Descriptor<'_> for DigitalCopyControlDescriptor {
    const TAG: u8 = 0xC1;

    open spec fn spec_readable(data: Seq<u8>) -> bool {
        &&& data.len() >= 1
        &&& data[0] & 0x20 != 0 ==> data.len() >= 2
        &&& data[0] & 0x10 != 0 ==> {
            let o = dcc_cc_offset(data);
            data.len() >= o + 1 && data.len() >= o + 1 + data[o]
        }
    }

    open spec fn spec_decodes(data: Seq<u8>, d: Self) -> bool {
        &&& d.digital_recording_control_data == (data[0] & 0xC0) >> 6
        &&& d.copy_control_type == (data[0] & 0x0C) >> 2
        &&& d.aps_control_data == aps_of(data[0])
        &&& d.maximum_bitrate == if data[0] & 0x20 != 0 {
            Some(data[1])
        } else {
            None
        }
        &&& match d.component_controls {
            None => data[0] & 0x10 == 0,
            Some(v) => {
                let o = dcc_cc_offset(data);
                data[0] & 0x10 != 0 && v@ == component_controls_of(
                    data.subrange(o + 1, o + 1 + data[o]),
                )
            },
        }
    }

    fn read(data: &[u8]) -> (r: Option<DigitalCopyControlDescriptor>) {
        if data.len() < 1 {
            return None;
        }
        let b0 = data[0];
        let mut o: usize = 1;
        let maximum_bitrate = if b0 & 0x20 != 0 {
            if data.len() < 2 {
                return None;
            }
            o = 2;
            Some(data[1])
        } else {
            None
        };
        let component_controls = if b0 & 0x10 != 0 {
            if data.len() < o + 1 {
                return None;
            }
            let l = data[o] as usize;
            if data.len() - (o + 1) < l {
                return None;
            }
            Some(read_component_controls(&data[o + 1..o + 1 + l]))
        } else {
            None
        };
        Some(
            DigitalCopyControlDescriptor {
                digital_recording_control_data: (b0 & 0xC0) >> 6,
                copy_control_type: (b0 & 0x0C) >> 2,
                aps_control_data: read_aps(b0),
                maximum_bitrate,
                component_controls,
            },
        )
    }
}

/// Quality indicator of an audio component descriptor.
#[derive(Debug, Clone, Copy, PartialEq, Eq, Structural)]
pub enum QualityIndicator {
    /// Reserved for future use.
    Reserved,
    /// Mode 1.
    Mode1,
    /// Mode 2.
    Mode2,
    /// Mode 3.
    Mode3,
}

/// Sampling frequency of an audio component descriptor.
#[derive(Debug, Clone, Copy, PartialEq, Eq, Structural)]
pub enum SamplingFrequency {
    /// Reserved.
    Reserved,
    /// 16 kHz.
    SF16k,
    /// 22.05 kHz.
    SF22_05k,
    /// 24 kHz.
    SF24k,
    /// 32 kHz.
    SF32k,
    /// 44.1 kHz.
    SF44_1k,
    /// 48 kHz.
    SF48k,
}

/// The quality indicator coded by the two-bit value `v`.
pub open spec fn quality_of(v: u8) -> QualityIndicator {
    if v == 0 {
        QualityIndicator::Reserved
    } else if v == 1 {
        QualityIndicator::Mode1
    } else if v == 2 {
        QualityIndicator::Mode2
    } else {
        QualityIndicator::Mode3
    }
}

/// The sampling frequency coded by the three-bit value `v`.
pub open spec fn sampling_of(v: u8) -> SamplingFrequency {
    if v == 1 {
        SamplingFrequency::SF16k
    } else if v == 2 {
        SamplingFrequency::SF22_05k
    } else if v == 3 {
        SamplingFrequency::SF24k
    } else if v == 5 {
        SamplingFrequency::SF32k
    } else if v == 6 {
        SamplingFrequency::SF44_1k
    } else if v == 7 {
        SamplingFrequency::SF48k
    } else {
        SamplingFrequency::Reserved
    }
}

/// Audio component descriptor.
#[derive(Debug)]
pub struct AudioComponentDescriptor<'a> {
    /// Stream content (4 bits).
    pub stream_content: u8,
    /// Component type.
    pub component_type: u8,
    /// Component tag.
    pub component_tag: u8,
    /// Stream type.
    pub stream_type: StreamType,
    /// Simulcast group tag.
    pub simulcast_group_tag: u8,
    /// Main component flag.
    pub main_component_flag: bool,
    /// Quality indicator.
    pub quality_indicator: QualityIndicator,
    /// Sampling frequency.
    pub sampling_rate: SamplingFrequency,
    /// Language code.
    pub lang_code: LangCode,
    /// Second language code.
    pub lang_code_2: Option<LangCode>,
    /// Component description.
    pub text: AribStr<'a>,
}

impl<'a> Descriptor<'a> for AudioComponentDescriptor<'a> {
    const TAG: u8 = 0xC4;

    open spec fn spec_readable(data: Seq<u8>) -> bool {
        &&& data.len() >= 9
        &&& data[5] & 0x80 != 0 ==> data.len() >= 12
    }

    open spec fn spec_decodes(data: Seq<u8>, d: Self) -> bool {
        let multi = data[5] & 0x80 != 0;
        &&& d.stream_content == data[0] & 0x0F
        &&& d.component_type == data[1]
        &&& d.component_tag == data[2]
        &&& d.stream_type.0 == data[3]
        &&& d.simulcast_group_tag == data[4]
        &&& d.main_component_flag == (data[5] & 0x40 != 0)
        &&& d.quality_indicator == quality_of((data[5] & 0x30) >> 4)
        &&& d.sampling_rate == sampling_of((data[5] & 0x0E) >> 1)
        &&& d.lang_code.bytes() == lang_at(data, 6)
        &&& match d.lang_code_2 {
            Some(l) => multi && l.bytes() == lang_at(data, 9),
            None => !multi,
        }
        &&& d.text@ == tail(data, if multi { 12 } else { 9 })
    }

    fn read(data: &'a [u8]) -> (r: Option<AudioComponentDescriptor<'a>>) {
        if data.len() < 9 {
            return None;
        }
        let b5 = data[5];
        let quality_indicator = match (b5 & 0x30) >> 4 {
            0 => QualityIndicator::Reserved,
            1 => QualityIndicator::Mode1,
            2 => QualityIndicator::Mode2,
            _ => QualityIndicator::Mode3,
        };
        let sampling_rate = match (b5 & 0x0E) >> 1 {
            1 => SamplingFrequency::SF16k,
            2 => SamplingFrequency::SF22_05k,
            3 => SamplingFrequency::SF24k,
            5 => SamplingFrequency::SF32k,
            6 => SamplingFrequency::SF44_1k,
            7 => SamplingFrequency::SF48k,
            _ => SamplingFrequency::Reserved,
        };
        let (lang_code_2, text_start) = if b5 & 0x80 != 0 {
            if data.len() < 12 {
                return None;
            }
            (Some(LangCode::read_at(data, 9)), 12usize)
        } else {
            (None, 9usize)
        };
        Some(
            AudioComponentDescriptor {
                stream_content: data[0] & 0x0F,
                component_type: data[1],
                component_tag: data[2],
                stream_type: StreamType(data[3]),
                simulcast_group_tag: data[4],
                main_component_flag: b5 & 0x40 != 0,
                quality_indicator,
                sampling_rate,
                lang_code: LangCode::read_at(data, 6),
                lang_code_2,
                text: AribStr::from_bytes(skip(data, text_start)),
            },
        )
    }
}

/// A service as a link destination.
#[derive(Debug, Clone, PartialEq, Eq)]
pub struct LinkServiceInfo {
    /// Original network identifier.
    pub original_network_id: NetworkId,
    /// Transport stream identifier.
    pub transport_stream_id: TransportStreamId,
    /// Service identifier.
    pub service_id: ServiceId,
}

/// An event as a link destination.
#[derive(Debug, Clone, PartialEq, Eq)]
pub struct LinkEventInfo {
    /// Original network identifier.
    pub original_network_id: NetworkId,
    /// Transport stream identifier.
    pub transport_stream_id: TransportStreamId,
    /// Service identifier.
    pub service_id: ServiceId,
    /// Event identifier.
    pub event_id: EventId,
}

/// A module of an event as a link destination.
#[derive(Debug, Clone, PartialEq, Eq)]
pub struct LinkModuleInfo {
    /// Original network identifier.
    pub original_network_id: NetworkId,
    /// Transport stream identifier.
    pub transport_stream_id: TransportStreamId,
    /// Service identifier.
    pub service_id: ServiceId,
    /// Event identifier.
    pub event_id: EventId,
    /// Component tag.
    pub component_tag: u8,
    /// Module identifier.
    pub module_id: u16,
}

/// A content as a link destination.
#[derive(Debug, Clone, PartialEq, Eq)]
pub struct LinkContentInfo {
    /// Original network identifier.
    pub original_network_id: NetworkId,
    /// Transport stream identifier.
    pub transport_stream_id: TransportStreamId,
    /// Service identifier.
    pub service_id: ServiceId,
    /// Content identifier.
    pub content_id: u32,
}

/// A module of a content as a link destination.
#[derive(Debug, Clone, PartialEq, Eq)]
pub struct LinkContentModuleInfo {
    /// Original network identifier.
    pub original_network_id: NetworkId,
    /// Transport stream identifier.
    pub transport_stream_id: TransportStreamId,
    /// Service identifier.
    pub service_id: ServiceId,
    /// Content identifier.
    pub content_id: u32,
    /// Component tag.
    pub component_tag: u8,
    /// Module identifier.
    pub module_id: u16,
}

/// A node of an event relation table as a link destination.
#[derive(Debug, Clone, PartialEq, Eq)]
pub struct LinkErtNodeInfo {
    /// Information provider identifier.
    pub information_provider_id: u16,
    /// Event relation identifier.
    pub event_relation_id: u16,
    /// Node identifier.
    pub node_id: u16,
}

/// A stored content as a link destination.
#[derive(Debug)]
pub struct LinkStoredContentInfo<'a> {
    /// URI.
    pub uri: AribStr<'a>,
}

/// A link destination of an unknown kind.
#[derive(Debug)]
pub struct LinkUnknown<'a> {
    /// Link destination type.
    pub link_destination_type: u8,
    /// Selector bytes.
    pub selector: &'a [u8],
}

/// The link destination of a hyperlink descriptor.
#[derive(Debug)]
pub enum SelectorInfo<'a> {
    /// A service.
    LinkServiceInfo(LinkServiceInfo),
    /// An event.
    LinkEventInfo(LinkEventInfo),
    /// A module of an event.
    LinkModuleInfo(LinkModuleInfo),
    /// A content.
    LinkContentInfo(LinkContentInfo),
    /// A module of a content.
    LinkContentModuleInfo(LinkContentModuleInfo),
    /// A node of an event relation table.
    LinkErtNodeInfo(LinkErtNodeInfo),
    /// A stored content.
    LinkStoredContentInfo(LinkStoredContentInfo<'a>),
    /// Unknown.
    Unknown(LinkUnknown<'a>),
}

/// Whether the first `n` big-endian words of `s` are all non-zero identifiers.
pub open spec fn ids_nonzero(s: Seq<u8>, n: int) -> bool {
    forall|j: int| 0 <= j < n ==> #[trigger] be16(s, 2 * j) != 0
}

/// Whether a selector of link destination type `t` decodes.
pub open spec fn selector_readable(t: u8, s: Seq<u8>) -> bool {
    if t == 1 {
        s.len() == 6 && ids_nonzero(s, 3)
    } else if t == 2 {
        s.len() == 8 && ids_nonzero(s, 4)
    } else if t == 3 {
        s.len() == 11 && ids_nonzero(s, 4)
    } else if t == 4 {
        s.len() == 10 && ids_nonzero(s, 3)
    } else if t == 5 {
        s.len() == 13 && ids_nonzero(s, 3)
    } else if t == 6 {
        s.len() == 6
    } else {
        true
    }
}

/// Whether `v` is what a selector of link destination type `t` decodes to.
pub open spec fn selector_decodes<'a>(t: u8, s: Seq<u8>, v: SelectorInfo<'a>) -> bool {
    match v {
        SelectorInfo::LinkServiceInfo(x) => t == 1 && x.original_network_id@ == be16(s, 0)
            && x.transport_stream_id@ == be16(s, 2) && x.service_id@ == be16(s, 4),
        SelectorInfo::LinkEventInfo(x) => t == 2 && x.original_network_id@ == be16(s, 0)
            && x.transport_stream_id@ == be16(s, 2) && x.service_id@ == be16(s, 4)
            && x.event_id@ == be16(s, 6),
        SelectorInfo::LinkModuleInfo(x) => t == 3 && x.original_network_id@ == be16(s, 0)
            && x.transport_stream_id@ == be16(s, 2) && x.service_id@ == be16(s, 4)
            && x.event_id@ == be16(s, 6) && x.component_tag == s[8] && x.module_id == be16(s, 9),
        SelectorInfo::LinkContentInfo(x) => t == 4 && x.original_network_id@ == be16(s, 0)
            && x.transport_stream_id@ == be16(s, 2) && x.service_id@ == be16(s, 4)
            && x.content_id == be32(s, 6),
        SelectorInfo::LinkContentModuleInfo(x) => t == 5 && x.original_network_id@ == be16(s, 0)
            && x.transport_stream_id@ == be16(s, 2) && x.service_id@ == be16(s, 4)
            && x.content_id == be32(s, 6) && x.component_tag == s[10] && x.module_id == be16(
            s,
            11,
        ),
        SelectorInfo::LinkErtNodeInfo(x) => t == 6 && x.information_provider_id == be16(s, 0)
            && x.event_relation_id == be16(s, 2) && x.node_id == be16(s, 4),
        SelectorInfo::LinkStoredContentInfo(x) => t == 7 && x.uri@ == s,
        SelectorInfo::Unknown(x) => (t == 0 || t > 7) && x.link_destination_type == t
            && x.selector@ == s,
    }
}

fn read_selector<'a>(t: u8, s: &'a [u8]) -> (r: Option<SelectorInfo<'a>>)
    ensures
        r is Some <==> selector_readable(t, s@),
        r matches Some(v) ==> selector_decodes(t, s@, v),
{
    if t == 1 {
        if s.len() != 6 {
            return None;
        }
        let a = be16_at(s, 0);
        let b = be16_at(s, 2);
        let c = be16_at(s, 4);
        assert(be16(s@, 2 * 0int) == a && be16(s@, 2 * 1int) == b && be16(s@, 2 * 2int) == c);
        let original_network_id = NetworkId::new(a)?;
        let transport_stream_id = TransportStreamId::new(b)?;
        let service_id = ServiceId::new(c)?;
        Some(
            SelectorInfo::LinkServiceInfo(
                LinkServiceInfo { original_network_id, transport_stream_id, service_id },
            ),
        )
    } else if t == 2 || t == 3 {
        if (t == 2 && s.len() != 8) || (t == 3 && s.len() != 11) {
            return None;
        }
        let a = be16_at(s, 0);
        let b = be16_at(s, 2);
        let c = be16_at(s, 4);
        let e = be16_at(s, 6);
        assert(be16(s@, 2 * 0int) == a && be16(s@, 2 * 1int) == b && be16(s@, 2 * 2int) == c && be16(
            s@,
            2 * 3int,
        ) == e);
        let original_network_id = NetworkId::new(a)?;
        let transport_stream_id = TransportStreamId::new(b)?;
        let service_id = ServiceId::new(c)?;
        let event_id = EventId::new(e)?;
        if t == 2 {
            Some(
                SelectorInfo::LinkEventInfo(
                    LinkEventInfo { original_network_id, transport_stream_id, service_id, event_id },
                ),
            )
        } else {
            Some(
                SelectorInfo::LinkModuleInfo(
                    LinkModuleInfo {
                        original_network_id,
                        transport_stream_id,
                        service_id,
                        event_id,
                        component_tag: s[8],
                        module_id: be16_at(s, 9),
                    },
                ),
            )
        }
    } else if t == 4 || t == 5 {
        if (t == 4 && s.len() != 10) || (t == 5 && s.len() != 13) {
            return None;
        }
        let a = be16_at(s, 0);
        let b = be16_at(s, 2);
        let c = be16_at(s, 4);
        assert(be16(s@, 2 * 0int) == a && be16(s@, 2 * 1int) == b && be16(s@, 2 * 2int) == c);
        let original_network_id = NetworkId::new(a)?;
        let transport_stream_id = TransportStreamId::new(b)?;
        let service_id = ServiceId::new(c)?;
        let content_id = be32_at(s, 6);
        if t == 4 {
            Some(
                SelectorInfo::LinkContentInfo(
                    LinkContentInfo {
                        original_network_id,
                        transport_stream_id,
                        service_id,
                        content_id,
                    },
                ),
            )
        } else {
            Some(
                SelectorInfo::LinkContentModuleInfo(
                    LinkContentModuleInfo {
                        original_network_id,
                        transport_stream_id,
                        service_id,
                        content_id,
                        component_tag: s[10],
                        module_id: be16_at(s, 11),
                    },
                ),
            )
        }
    } else if t == 6 {
        if s.len() != 6 {
            return None;
        }
        Some(
            SelectorInfo::LinkErtNodeInfo(
                LinkErtNodeInfo {
                    information_provider_id: be16_at(s, 0),
                    event_relation_id: be16_at(s, 2),
                    node_id: be16_at(s, 4),
                },
            ),
        )
    } else if t == 7 {
        Some(SelectorInfo::LinkStoredContentInfo(LinkStoredContentInfo { uri: AribStr::from_bytes(s) }))
    } else {
        Some(SelectorInfo::Unknown(LinkUnknown { link_destination_type: t, selector: s }))
    }
}

/// Hyperlink descriptor.
#[derive(Debug)]
pub struct HyperlinkDescriptor<'a> {
    /// Hyper linkage type.
    pub hyper_linkage_type: u8,
    /// Link destination.
    pub selector: SelectorInfo<'a>,
    /// Private data.
    pub private_data: &'a [u8],
}

impl<'a> Descriptor<'a> for HyperlinkDescriptor<'a> {
    const TAG: u8 = 0xC5;

    open spec fn spec_readable(data: Seq<u8>) -> bool {
        &&& data.len() >= 3 + data[2]
        &&& selector_readable(data[1], data.subrange(3, 3 + data[2]))
    }

    open spec fn spec_decodes(data: Seq<u8>, d: Self) -> bool {
        &&& d.hyper_linkage_type == data[0]
        &&& selector_decodes(data[1], data.subrange(3, 3 + data[2]), d.selector)
        &&& d.private_data@ == tail(data, 3 + data[2])
    }

    fn read(data: &'a [u8]) -> (r: Option<HyperlinkDescriptor<'a>>) {
        if data.len() < 3 {
            return None;
        }
        let l = data[2] as usize;
        if data.len() - 3 < l {
            return None;
        }
        let selector = read_selector(data[1], &data[3..3 + l])?;
        Some(
            HyperlinkDescriptor {
                hyper_linkage_type: data[0],
                selector,
                private_data: skip(data, 3 + l),
            },
        )
    }
}

/// A prefecture designation bitmap.
#[derive(Debug, Clone, Copy, PartialEq, Eq)]
pub struct PrefectureBitmap(pub [u8; 7]);

/// Whether the prefecture numbered `bit` is set in `bitmap`: bit `bit - 1`,
/// counted from the least significant bit of the first byte.
pub open spec fn prefecture_flag(bitmap: Seq<u8>, bit: int) -> bool {
    bitmap[(bit - 1) / 8] & (1u8 << ((bit - 1) % 8) as u8) != 0
}

impl PrefectureBitmap {
    /// Whether the prefecture numbered `bit` (1 for east Hokkaido up to 50 for
    /// the Kagoshima islands) is targeted.
    pub fn has_prefecture(&self, bit: u8) -> (r: bool)
        requires
            1 <= bit <= 56,
        ensures
            r == prefecture_flag(self.0@, bit as int),
    {
        let i = ((bit - 1) / 8) as usize;
        let sh = (bit - 1) % 8;
        self.0[i] & (1u8 << sh) != 0
    }

    /// Whether east Hokkaido is targeted.
    pub fn has_east_hokkaido(&self) -> (r: bool)
        ensures
            r == prefecture_flag(self.0@, 1),
    {
        self.has_prefecture(1)
    }

    /// Whether west Hokkaido is targeted.
    pub fn has_west_hokkaido(&self) -> (r: bool)
        ensures
            r == prefecture_flag(self.0@, 2),
    {
        self.has_prefecture(2)
    }

    /// Whether Aomori is targeted.
    pub fn has_aomori(&self) -> (r: bool)
        ensures
            r == prefecture_flag(self.0@, 3),
    {
        self.has_prefecture(3)
    }

    /// Whether Iwate is targeted.
    pub fn has_iwate(&self) -> (r: bool)
        ensures
            r == prefecture_flag(self.0@, 4),
    {
        self.has_prefecture(4)
    }

    /// Whether Miyagi is targeted.
    pub fn has_miyagi(&self) -> (r: bool)
        ensures
            r == prefecture_flag(self.0@, 5),
    {
        self.has_prefecture(5)
    }

    /// Whether Akita is targeted.
    pub fn has_akita(&self) -> (r: bool)
        ensures
            r == prefecture_flag(self.0@, 6),
    {
        self.has_prefecture(6)
    }

    /// Whether Yamagata is targeted.
    pub fn has_yamagata(&self) -> (r: bool)
        ensures
            r == prefecture_flag(self.0@, 7),
    {
        self.has_prefecture(7)
    }

    /// Whether Fukushima is targeted.
    pub fn has_fukushima(&self) -> (r: bool)
        ensures
            r == prefecture_flag(self.0@, 8),
    {
        self.has_prefecture(8)
    }

    /// Whether Ibaraki is targeted.
    pub fn has_ibaraki(&self) -> (r: bool)
        ensures
            r == prefecture_flag(self.0@, 9),
    {
        self.has_prefecture(9)
    }

    /// Whether Tochigi is targeted.
    pub fn has_tochigi(&self) -> (r: bool)
        ensures
            r == prefecture_flag(self.0@, 10),
    {
        self.has_prefecture(10)
    }

    /// Whether Gunma is targeted.
    pub fn has_gunma(&self) -> (r: bool)
        ensures
            r == prefecture_flag(self.0@, 11),
    {
        self.has_prefecture(11)
    }

    /// Whether Saitama is targeted.
    pub fn has_saitama(&self) -> (r: bool)
        ensures
            r == prefecture_flag(self.0@, 12),
    {
        self.has_prefecture(12)
    }

    /// Whether Chiba is targeted.
    pub fn has_chiba(&self) -> (r: bool)
        ensures
            r == prefecture_flag(self.0@, 13),
    {
        self.has_prefecture(13)
    }

    /// Whether Tokyo, its islands aside is targeted.
    pub fn has_tokyo(&self) -> (r: bool)
        ensures
            r == prefecture_flag(self.0@, 14),
    {
        self.has_prefecture(14)
    }

    /// Whether Kanagawa is targeted.
    pub fn has_kanagawa(&self) -> (r: bool)
        ensures
            r == prefecture_flag(self.0@, 15),
    {
        self.has_prefecture(15)
    }

    /// Whether Niigata is targeted.
    pub fn has_niigata(&self) -> (r: bool)
        ensures
            r == prefecture_flag(self.0@, 16),
    {
        self.has_prefecture(16)
    }

    /// Whether Toyama is targeted.
    pub fn has_toyama(&self) -> (r: bool)
        ensures
            r == prefecture_flag(self.0@, 17),
    {
        self.has_prefecture(17)
    }

    /// Whether Ishikawa is targeted.
    pub fn has_ishikawa(&self) -> (r: bool)
        ensures
            r == prefecture_flag(self.0@, 18),
    {
        self.has_prefecture(18)
    }

    /// Whether Fukui is targeted.
    pub fn has_fukui(&self) -> (r: bool)
        ensures
            r == prefecture_flag(self.0@, 19),
    {
        self.has_prefecture(19)
    }

    /// Whether Yamanashi is targeted.
    pub fn has_yamanashi(&self) -> (r: bool)
        ensures
            r == prefecture_flag(self.0@, 20),
    {
        self.has_prefecture(20)
    }

    /// Whether Nagano is targeted.
    pub fn has_nagano(&self) -> (r: bool)
        ensures
            r == prefecture_flag(self.0@, 21),
    {
        self.has_prefecture(21)
    }

    /// Whether Gifu is targeted.
    pub fn has_gifu(&self) -> (r: bool)
        ensures
            r == prefecture_flag(self.0@, 22),
    {
        self.has_prefecture(22)
    }

    /// Whether Shizuoka is targeted.
    pub fn has_shizuoka(&self) -> (r: bool)
        ensures
            r == prefecture_flag(self.0@, 23),
    {
        self.has_prefecture(23)
    }

    /// Whether Aichi is targeted.
    pub fn has_aichi(&self) -> (r: bool)
        ensures
            r == prefecture_flag(self.0@, 24),
    {
        self.has_prefecture(24)
    }

    /// Whether Mie is targeted.
    pub fn has_mie(&self) -> (r: bool)
        ensures
            r == prefecture_flag(self.0@, 25),
    {
        self.has_prefecture(25)
    }

    /// Whether Shiga is targeted.
    pub fn has_shiga(&self) -> (r: bool)
        ensures
            r == prefecture_flag(self.0@, 26),
    {
        self.has_prefecture(26)
    }

    /// Whether Kyoto is targeted.
    pub fn has_kyoto(&self) -> (r: bool)
        ensures
            r == prefecture_flag(self.0@, 27),
    {
        self.has_prefecture(27)
    }

    /// Whether Osaka is targeted.
    pub fn has_osaka(&self) -> (r: bool)
        ensures
            r == prefecture_flag(self.0@, 28),
    {
        self.has_prefecture(28)
    }

    /// Whether Hyogo is targeted.
    pub fn has_hyogo(&self) -> (r: bool)
        ensures
            r == prefecture_flag(self.0@, 29),
    {
        self.has_prefecture(29)
    }

    /// Whether Nara is targeted.
    pub fn has_nara(&self) -> (r: bool)
        ensures
            r == prefecture_flag(self.0@, 30),
    {
        self.has_prefecture(30)
    }

    /// Whether Wakayama is targeted.
    pub fn has_wakayama(&self) -> (r: bool)
        ensures
            r == prefecture_flag(self.0@, 31),
    {
        self.has_prefecture(31)
    }

    /// Whether Tottori is targeted.
    pub fn has_tottori(&self) -> (r: bool)
        ensures
            r == prefecture_flag(self.0@, 32),
    {
        self.has_prefecture(32)
    }

    /// Whether Shimane is targeted.
    pub fn has_shimane(&self) -> (r: bool)
        ensures
            r == prefecture_flag(self.0@, 33),
    {
        self.has_prefecture(33)
    }

    /// Whether Okayama is targeted.
    pub fn has_okayama(&self) -> (r: bool)
        ensures
            r == prefecture_flag(self.0@, 34),
    {
        self.has_prefecture(34)
    }

    /// Whether Hiroshima is targeted.
    pub fn has_hiroshima(&self) -> (r: bool)
        ensures
            r == prefecture_flag(self.0@, 35),
    {
        self.has_prefecture(35)
    }

    /// Whether Yamaguchi is targeted.
    pub fn has_yamaguchi(&self) -> (r: bool)
        ensures
            r == prefecture_flag(self.0@, 36),
    {
        self.has_prefecture(36)
    }

    /// Whether Tokushima is targeted.
    pub fn has_tokushima(&self) -> (r: bool)
        ensures
            r == prefecture_flag(self.0@, 37),
    {
        self.has_prefecture(37)
    }

    /// Whether Kagawa is targeted.
    pub fn has_kagawa(&self) -> (r: bool)
        ensures
            r == prefecture_flag(self.0@, 38),
    {
        self.has_prefecture(38)
    }

    /// Whether Ehime is targeted.
    pub fn has_ehime(&self) -> (r: bool)
        ensures
            r == prefecture_flag(self.0@, 39),
    {
        self.has_prefecture(39)
    }

    /// Whether Kochi is targeted.
    pub fn has_kochi(&self) -> (r: bool)
        ensures
            r == prefecture_flag(self.0@, 40),
    {
        self.has_prefecture(40)
    }

    /// Whether Fukuoka is targeted.
    pub fn has_fukuoka(&self) -> (r: bool)
        ensures
            r == prefecture_flag(self.0@, 41),
    {
        self.has_prefecture(41)
    }

    /// Whether Saga is targeted.
    pub fn has_saga(&self) -> (r: bool)
        ensures
            r == prefecture_flag(self.0@, 42),
    {
        self.has_prefecture(42)
    }

    /// Whether Nagasaki is targeted.
    pub fn has_nagasaki(&self) -> (r: bool)
        ensures
            r == prefecture_flag(self.0@, 43),
    {
        self.has_prefecture(43)
    }

    /// Whether Kumamoto is targeted.
    pub fn has_kumamoto(&self) -> (r: bool)
        ensures
            r == prefecture_flag(self.0@, 44),
    {
        self.has_prefecture(44)
    }

    /// Whether Oita is targeted.
    pub fn has_oita(&self) -> (r: bool)
        ensures
            r == prefecture_flag(self.0@, 45),
    {
        self.has_prefecture(45)
    }

    /// Whether Miyazaki is targeted.
    pub fn has_miyazaki(&self) -> (r: bool)
        ensures
            r == prefecture_flag(self.0@, 46),
    {
        self.has_prefecture(46)
    }

    /// Whether Kagoshima, the Nansei islands aside is targeted.
    pub fn has_kagoshima(&self) -> (r: bool)
        ensures
            r == prefecture_flag(self.0@, 47),
    {
        self.has_prefecture(47)
    }

    /// Whether Okinawa is targeted.
    pub fn has_okinawa(&self) -> (r: bool)
        ensures
            r == prefecture_flag(self.0@, 48),
    {
        self.has_prefecture(48)
    }

    /// Whether the Tokyo islands (Izu and Ogasawara) is targeted.
    pub fn has_tokyo_island(&self) -> (r: bool)
        ensures
            r == prefecture_flag(self.0@, 49),
    {
        self.has_prefecture(49)
    }

    /// Whether the Kagoshima part of the Nansei islands is targeted.
    pub fn has_kagoshima_island(&self) -> (r: bool)
        ensures
            r == prefecture_flag(self.0@, 50),
    {
        self.has_prefecture(50)
    }
}

/// Prefecture designation for BS digital broadcasting.
#[derive(Debug, Clone, PartialEq, Eq)]
pub struct BsPrefectureSpec {
    /// Prefecture bitmap.
    pub prefecture_bitmap: PrefectureBitmap,
}

/// The region designation of a target region descriptor.
#[derive(Debug)]
pub enum TargetRegionSpec<'a> {
    /// Prefecture designation for BS digital broadcasting.
    BsPrefectureSpec(BsPrefectureSpec),
    /// An unknown designation.
    Unknown(&'a [u8]),
}

/// Target region descriptor.
#[derive(Debug)]
pub struct TargetRegionDescriptor<'a> {
    /// Region designation.
    pub target_region_spec: TargetRegionSpec<'a>,
}

impl<'a> Descriptor<'a> for TargetRegionDescriptor<'a> {
    const TAG: u8 = 0xC6;

    open spec fn spec_readable(data: Seq<u8>) -> bool {
        &&& data.len() >= 1
        &&& data[0] == 1 ==> data.len() == 8
    }

    open spec fn spec_decodes(data: Seq<u8>, d: Self) -> bool {
        match d.target_region_spec {
            TargetRegionSpec::BsPrefectureSpec(b) => data[0] == 1 && b.prefecture_bitmap.0@
                == tail(data, 1),
            TargetRegionSpec::Unknown(u) => data[0] != 1 && u@ == tail(data, 1),
        }
    }

    fn read(data: &'a [u8]) -> (r: Option<TargetRegionDescriptor<'a>>) {
        if data.len() < 1 {
            return None;
        }
        let target_region_spec = if data[0] == 1 {
            if data.len() != 8 {
                return None;
            }
            let bitmap = [data[1], data[2], data[3], data[4], data[5], data[6], data[7]];
            assert(bitmap@ =~= tail(data@, 1));
            TargetRegionSpec::BsPrefectureSpec(
                BsPrefectureSpec { prefecture_bitmap: PrefectureBitmap(bitmap) },
            )
        } else {
            TargetRegionSpec::Unknown(skip(data, 1))
        };
        Some(TargetRegionDescriptor { target_region_spec })
    }
}

/// Data content descriptor.
#[derive(Debug)]
pub struct DataContentDescriptor<'a> {
    /// Data component identifier.
    pub data_component_id: u16,
    /// Entry component.
    pub entry_component: u8,
    /// Selector.
    pub selector: &'a [u8],
    /// Referenced components.
    pub component_ref: &'a [u8],
    /// Language code.
    pub lang_code: LangCode,
    /// Content description.
    pub text: AribStr<'a>,
}

/// Where the component reference count stands in a data content descriptor.
pub open spec fn dc_ref_offset(data: Seq<u8>) -> int {
    4 + data[3]
}

/// Where the language code stands in a data content descriptor.
pub open spec fn dc_lang_offset(data: Seq<u8>) -> int {
    dc_ref_offset(data) + 1 + data[dc_ref_offset(data)]
}

impl<'a> Descriptor<'a> for DataContentDescriptor<'a> {
    const TAG: u8 = 0xC7;

    open spec fn spec_readable(data: Seq<u8>) -> bool {
        &&& data.len() >= 5 + data[3]
        &&& data.len() >= dc_lang_offset(data) + 4
        &&& data.len() == dc_lang_offset(data) + 4 + data[dc_lang_offset(data) + 3]
    }

    open spec fn spec_decodes(data: Seq<u8>, d: Self) -> bool {
        let i = dc_ref_offset(data);
        let j = dc_lang_offset(data);
        &&& d.data_component_id == be16(data, 0)
        &&& d.entry_component == data[2]
        &&& d.selector@ == data.subrange(4, i)
        &&& d.component_ref@ == data.subrange(i + 1, j)
        &&& d.lang_code.bytes() == lang_at(data, j)
        &&& d.text@ == tail(data, j + 4)
    }

    fn read(data: &'a [u8]) -> (r: Option<DataContentDescriptor<'a>>) {
        if data.len() < 4 {
            return None;
        }
        let sl = data[3] as usize;
        if data.len() - 4 < sl + 1 {
            return None;
        }
        let i = 4 + sl;
        let nc = data[i] as usize;
        if data.len() - (i + 1) < nc + 4 {
            return None;
        }
        let j = i + 1 + nc;
        let tl = data[j + 3] as usize;
        if data.len() - (j + 4) != tl {
            return None;
        }
        Some(
            DataContentDescriptor {
                data_component_id: be16_at(data, 0),
                entry_component: data[2],
                selector: &data[4..i],
                component_ref: &data[i + 1..j],
                lang_code: LangCode::read_at(data, j),
                text: AribStr::from_bytes(skip(data, j + 4)),
            },
        )
    }
}

/// Video encode format.
#[derive(Debug, Clone, Copy, PartialEq, Eq, Structural)]
pub enum VideoEncodeFormat {
    /// 1080/P
    Vef1080P,
    /// 1080/I
    Vef1080I,
    /// 720/P
    Vef720P,
    /// 480/P
    Vef480P,
    /// 480/I
    Vef480I,
    /// 240/P
    Vef240P,
    /// 120/P
    Vef120P,
    /// 2160/60P
    Vef2160_60P,
    /// 180P
    Vef180P,
    /// 2160/120P
    Vef2160_120P,
    /// 4320/60P
    Vef4320_60P,
    /// 4320/120P
    Vef4320_120P,
    /// Unknown (reserved for extension).
    Unknown,
}

/// The video encode format coded by `v`; the value `0b1011` decodes as
/// 2160/120P, as `0b1001` does.
pub open spec fn video_encode_format_of(v: u8) -> VideoEncodeFormat {
    if v == 0 {
        VideoEncodeFormat::Vef1080P
    } else if v == 1 {
        VideoEncodeFormat::Vef1080I
    } else if v == 2 {
        VideoEncodeFormat::Vef720P
    } else if v == 3 {
        VideoEncodeFormat::Vef480P
    } else if v == 4 {
        VideoEncodeFormat::Vef480I
    } else if v == 5 {
        VideoEncodeFormat::Vef240P
    } else if v == 6 {
        VideoEncodeFormat::Vef120P
    } else if v == 7 {
        VideoEncodeFormat::Vef2160_60P
    } else if v == 8 {
        VideoEncodeFormat::Vef180P
    } else if v == 9 {
        VideoEncodeFormat::Vef2160_120P
    } else if v == 10 {
        VideoEncodeFormat::Vef4320_60P
    } else if v == 11 {
        VideoEncodeFormat::Vef4320_120P
    } else {
        VideoEncodeFormat::Unknown
    }
}

/// The video encode format values of ARIB STD-B10 decode as that standard
/// names them: 0 1080/P, 1 1080/I, 2 720/P, 3 480/P, 4 480/I, 5 240/P,
/// 6 120/P, 7 2160/60P, 8 180/P, 9 2160/120P, 10 4320/60P, 11 4320/120P,
/// and every other value unknown; different defined values give different
/// formats.
pub proof fn law_video_encode_format_table(v: u8, w: u8)
    ensures
        v == 0 ==> video_encode_format_of(v) == VideoEncodeFormat::Vef1080P,
        v == 1 ==> video_encode_format_of(v) == VideoEncodeFormat::Vef1080I,
        v == 2 ==> video_encode_format_of(v) == VideoEncodeFormat::Vef720P,
        v == 3 ==> video_encode_format_of(v) == VideoEncodeFormat::Vef480P,
        v == 4 ==> video_encode_format_of(v) == VideoEncodeFormat::Vef480I,
        v == 5 ==> video_encode_format_of(v) == VideoEncodeFormat::Vef240P,
        v == 6 ==> video_encode_format_of(v) == VideoEncodeFormat::Vef120P,
        v == 7 ==> video_encode_format_of(v) == VideoEncodeFormat::Vef2160_60P,
        v == 8 ==> video_encode_format_of(v) == VideoEncodeFormat::Vef180P,
        v == 9 ==> video_encode_format_of(v) == VideoEncodeFormat::Vef2160_120P,
        v == 10 ==> video_encode_format_of(v) == VideoEncodeFormat::Vef4320_60P,
        v == 11 ==> video_encode_format_of(v) == VideoEncodeFormat::Vef4320_120P,
        v >= 12 ==> video_encode_format_of(v) == VideoEncodeFormat::Unknown,
        v <= 11 && w <= 11 && v != w ==> video_encode_format_of(v) != video_encode_format_of(w),
{
}

impl From<u8> for VideoEncodeFormat {
    /// Decodes a video encode format value.
    fn from(value: u8) -> (r: VideoEncodeFormat)
        ensures
            r == video_encode_format_of(value),
    {
        match value {
            0 => VideoEncodeFormat::Vef1080P,
            1 => VideoEncodeFormat::Vef1080I,
            2 => VideoEncodeFormat::Vef720P,
            3 => VideoEncodeFormat::Vef480P,
            4 => VideoEncodeFormat::Vef480I,
            5 => VideoEncodeFormat::Vef240P,
            6 => VideoEncodeFormat::Vef120P,
            7 => VideoEncodeFormat::Vef2160_60P,
            8 => VideoEncodeFormat::Vef180P,
            9 => VideoEncodeFormat::Vef2160_120P,
            10 => VideoEncodeFormat::Vef4320_60P,
            11 => VideoEncodeFormat::Vef4320_120P,
            _ => VideoEncodeFormat::Unknown,
        }
    }
}

impl FromSpecImpl<u8> for VideoEncodeFormat {
    open spec fn obeys_from_spec() -> bool {
        true
    }

    open spec fn from_spec(v: u8) -> VideoEncodeFormat {
        video_encode_format_of(v)
    }
}

/// Video decode control descriptor.
#[derive(Debug, Clone, PartialEq, Eq)]
pub struct VideoDecodeControlDescriptor {
    /// Still picture flag.
    pub still_picture_flag: bool,
    /// Sequence end code flag.
    pub sequence_end_code_flag: bool,
    /// Video encode format.
    pub video_encode_format: VideoEncodeFormat,
}

impl Descriptor<'_> for VideoDecodeControlDescriptor {
    const TAG: u8 = 0xC8;

    open spec fn spec_readable(data: Seq<u8>) -> bool {
        data.len() == 1
    }

    open spec fn spec_decodes(data: Seq<u8>, d: Self) -> bool {
        &&& d.still_picture_flag == (data[0] & 0x80 != 0)
        &&& d.sequence_end_code_flag == (data[0] & 0x40 != 0)
        &&& d.video_encode_format == video_encode_format_of((data[0] & 0x3C) >> 2)
    }

    fn read(data: &[u8]) -> (r: Option<VideoDecodeControlDescriptor>) {
        if data.len() != 1 {
            return None;
        }
        Some(
            VideoDecodeControlDescriptor {
                still_picture_flag: data[0] & 0x80 != 0,
                sequence_end_code_flag: data[0] & 0x40 != 0,
                video_encode_format: VideoEncodeFormat::from((data[0] & 0x3C) >> 2),
            },
        )
    }
}

/// A transmission type of a TS information descriptor.
#[derive(Debug, Clone, PartialEq, Eq)]
pub struct TsInformationTransmissionType {
    /// Transmission type information.
    pub transmission_type_info: u8,
    /// Service identifiers.
    pub service_ids: Vec<u16>,
}

impl View for TsInformationTransmissionType {
    type V = (u8, Seq<u16>);

    open spec fn view(&self) -> (u8, Seq<u16>) {
        (self.transmission_type_info, self.service_ids@)
    }
}

/// The first `n` transmission types coded in `s`, or `None` when `s` runs short.
///
/// Each holds `num_of_service` two-byte service identifiers.
pub open spec fn transmission_types_of(s: Seq<u8>, n: nat) -> Option<Seq<(u8, Seq<u16>)>>
    decreases n,
{
    if n == 0 {
        Some(Seq::empty())
    } else if s.len() < 2 || s.len() < 2 + 2 * s[1] {
        None
    } else {
        match transmission_types_of(tail(s, 2 + 2 * s[1]), (n - 1) as nat) {
            Some(rest) => Some(seq![(s[0], be16_words(s.subrange(2, 2 + 2 * s[1])))] + rest),
            None => None,
        }
    }
}

/// TS information descriptor.
#[derive(Debug)]
pub struct TsInformationDescriptor<'a> {
    /// Remote control key identifier.
    pub remote_control_key_id: u8,
    /// TS name.
    pub ts_name: AribStr<'a>,
    /// Transmission types.
    pub transmission_types: Vec<TsInformationTransmissionType>,
}

impl<'a> Descriptor<'a> for TsInformationDescriptor<'a> {
    const TAG: u8 = 0xCD;

    open spec fn spec_readable(data: Seq<u8>) -> bool {
        let l = (data[1] & 0xFC) >> 2;
        &&& data.len() >= 3
        &&& data.len() >= 2 + l
        &&& transmission_types_of(tail(data, 2 + l), (data[1] & 0x03) as nat) is Some
    }

    open spec fn spec_decodes(data: Seq<u8>, d: Self) -> bool {
        let l = (data[1] & 0xFC) >> 2;
        &&& d.remote_control_key_id == data[0]
        &&& d.ts_name@ == data.subrange(2, 2 + l)
        &&& transmission_types_of(tail(data, 2 + l), (data[1] & 0x03) as nat) == Some(
            d.transmission_types@.map_values(|t: TsInformationTransmissionType| t@),
        )
    }

    fn read(data: &'a [u8]) -> (r: Option<TsInformationDescriptor<'a>>) {
        if data.len() < 3 {
            return None;
        }
        let l = ((data[1] & 0xFC) >> 2) as usize;
        let count = data[1] & 0x03;
        if data.len() - 2 < l {
            return None;
        }
        let ts_name = AribStr::from_bytes(&data[2..2 + l]);
        let start = skip(data, 2 + l);
        let mut rest = start;
        let mut transmission_types: Vec<TsInformationTransmissionType> = Vec::new();
        let mut k: u8 = 0;
        while k < count
            invariant
                k <= count,
                count == data@[1] & 0x03,
                data@.len() >= 3,
                start@ == tail(data@, 2 + ((data@[1] & 0xFC) >> 2)),
                transmission_types_of(start@, count as nat) == match transmission_types_of(
                    rest@,
                    (count - k) as nat,
                ) {
                    Some(r) => Some(
                        transmission_types@.map_values(|t: TsInformationTransmissionType| t@) + r,
                    ),
                    None => None::<Seq<(u8, Seq<u16>)>>,
                },
            decreases count - k,
        {
            if rest.len() < 2 {
                return None;
            }
            let ns = 2 * rest[1] as usize;
            if rest.len() - 2 < ns {
                return None;
            }
            let t = TsInformationTransmissionType {
                transmission_type_info: rest[0],
                service_ids: read_be16_words(&rest[2..2 + ns]),
            };
            let next = skip(rest, 2 + ns);
            let ghost old_view = transmission_types@.map_values(
                |t: TsInformationTransmissionType| t@,
            );
            let ghost head = t@;
            transmission_types.push(t);
            proof {
                assert(transmission_types@.map_values(|t: TsInformationTransmissionType| t@)
                    =~= old_view.push(head));
                if let Some(r) = transmission_types_of(next@, (count - k - 1) as nat) {
                    assert(old_view + (seq![head] + r) =~= old_view.push(head) + r);
                }
            }
            rest = next;
            k = k + 1;
        }
        proof {
            assert(transmission_types@.map_values(|t: TsInformationTransmissionType| t@)
                + Seq::<(u8, Seq<u16>)>::empty() =~= transmission_types@.map_values(
                |t: TsInformationTransmissionType| t@,
            ));
        }
        Some(TsInformationDescriptor { remote_control_key_id: data[0], ts_name, transmission_types })
    }
}

/// A broadcaster identification of an extended broadcaster descriptor.
#[derive(Debug, Clone, PartialEq, Eq)]
pub struct BroadcasterId {
    /// Original network identifier.
    pub original_network_id: NetworkId,
    /// Broadcaster identifier.
    pub broadcaster_id: u8,
}

/// Whether every three-byte broadcaster identification of `s` has a non-zero network.
pub open spec fn broadcaster_ids_readable(s: Seq<u8>) -> bool {
    forall|j: int| 0 <= j < s.len() / 3 ==> #[trigger] be16(s, 3 * j) != 0
}

/// Whether `v` holds the broadcaster identifications coded in `s`.
pub open spec fn broadcaster_ids_decode(s: Seq<u8>, v: Seq<BroadcasterId>) -> bool {
    &&& v.len() == s.len() / 3
    &&& forall|j: int|
        0 <= j < v.len() ==> (#[trigger] v[j]).original_network_id@ == be16(s, 3 * j)
            && v[j].broadcaster_id == s[3 * j + 2]
}

fn read_broadcaster_ids(data: &[u8]) -> (r: Option<Vec<BroadcasterId>>)
    ensures
        r is Some <==> broadcaster_ids_readable(data@),
        r matches Some(v) ==> broadcaster_ids_decode(data@, v@),
{
    let mut out: Vec<BroadcasterId> = Vec::new();
    let mut pos: usize = 0;
    while data.len() - pos >= 3
        invariant
            pos % 3 == 0,
            pos <= data@.len(),
            out@.len() == pos / 3,
            forall|j: int| 0 <= j < out@.len() ==> #[trigger] be16(data@, 3 * j) != 0,
            forall|j: int|
                0 <= j < out@.len() ==> (#[trigger] out@[j]).original_network_id@ == be16(
                    data@,
                    3 * j,
                ) && out@[j].broadcaster_id == data@[3 * j + 2],
        decreases data@.len() - pos,
    {
        let v = be16_at(data, pos);
        assert(be16(data@, 3 * (pos / 3) as int) == v);
        let original_network_id = match NetworkId::new(v) {
            Some(id) => id,
            None => {
                return None;
            },
        };
        out.push(BroadcasterId { original_network_id, broadcaster_id: data[pos + 2] });
        pos = pos + 3;
    }
    Some(out)
}

/// Digital terrestrial television broadcast.
#[derive(Debug)]
pub struct DigitalTerrestrialTelevisionBroadcast<'a> {
    /// Terrestrial broadcaster identifier.
    pub terrestrial_broadcaster_id: u16,
    /// Affiliation identifiers.
    pub affiliation_id: &'a [u8],
    /// Broadcaster identifications.
    pub broadcaster_ids: Vec<BroadcasterId>,
    /// Private data.
    pub private_data: &'a [u8],
}

/// Digital terrestrial sound broadcast.
#[derive(Debug)]
pub struct DigitalTerrestrialSoundBroadcast<'a> {
    /// Terrestrial sound broadcaster identifier.
    pub terrestrial_sound_broadcaster_id: u16,
    /// Sound broadcast affiliation identifiers.
    pub sound_broadcast_affiliation_id: &'a [u8],
    /// Broadcaster identifications.
    pub broadcaster_ids: Vec<BroadcasterId>,
    /// Private data.
    pub private_data: &'a [u8],
}

/// Extended broadcaster descriptor.
#[derive(Debug)]
pub enum ExtendedBroadcasterDescriptor<'a> {
    /// Digital terrestrial television broadcast.
    DigitalTerrestrialTelevisionBroadcast(DigitalTerrestrialTelevisionBroadcast<'a>),
    /// Digital terrestrial sound broadcast.
    DigitalTerrestrialSoundBroadcast(DigitalTerrestrialSoundBroadcast<'a>),
    /// Undefined.
    Unknown(&'a [u8]),
}

/// The number of affiliation identifiers of a broadcaster body `b`.
pub open spec fn affiliation_count(b: Seq<u8>) -> int {
    ((b[2] & 0xF0) >> 4) as int
}

/// The end of the broadcaster identifications of a broadcaster body `b`.
pub open spec fn broadcaster_ids_end(b: Seq<u8>) -> int {
    3 + affiliation_count(b) + 3 * (b[2] & 0x0F)
}

/// Whether the broadcaster body `b` (after the type byte) decodes.
pub open spec fn broadcaster_body_readable(b: Seq<u8>) -> bool {
    &&& b.len() >= 3
    &&& b.len() >= broadcaster_ids_end(b)
    &&& broadcaster_ids_readable(b.subrange(3 + affiliation_count(b), broadcaster_ids_end(b)))
}

impl<'a> Descriptor<'a> for ExtendedBroadcasterDescriptor<'a> {
    const TAG: u8 = 0xCE;

    open spec fn spec_readable(data: Seq<u8>) -> bool {
        let t = (data[0] & 0xF0) >> 4;
        &&& data.len() >= 1
        &&& (t == 1 || t == 2) ==> broadcaster_body_readable(tail(data, 1))
    }

    open spec fn spec_decodes(data: Seq<u8>, d: Self) -> bool {
        let t = (data[0] & 0xF0) >> 4;
        let b = tail(data, 1);
        let a = affiliation_count(b);
        let e = broadcaster_ids_end(b);
        match d {
            ExtendedBroadcasterDescriptor::DigitalTerrestrialTelevisionBroadcast(x) => {
                &&& t == 1
                &&& x.terrestrial_broadcaster_id == be16(b, 0)
                &&& x.affiliation_id@ == b.subrange(3, 3 + a)
                &&& broadcaster_ids_decode(b.subrange(3 + a, e), x.broadcaster_ids@)
                &&& x.private_data@ == tail(b, e)
            },
            ExtendedBroadcasterDescriptor::DigitalTerrestrialSoundBroadcast(x) => {
                &&& t == 2
                &&& x.terrestrial_sound_broadcaster_id == be16(b, 0)
                &&& x.sound_broadcast_affiliation_id@ == b.subrange(3, 3 + a)
                &&& broadcaster_ids_decode(b.subrange(3 + a, e), x.broadcaster_ids@)
                &&& x.private_data@ == tail(b, e)
            },
            ExtendedBroadcasterDescriptor::Unknown(u) => t != 1 && t != 2 && u@ == b,
        }
    }

    fn read(data: &'a [u8]) -> (r: Option<ExtendedBroadcasterDescriptor<'a>>) {
        if data.len() < 1 {
            return None;
        }
        let t = (data[0] & 0xF0) >> 4;
        let b = skip(data, 1);
        if t != 1 && t != 2 {
            return Some(ExtendedBroadcasterDescriptor::Unknown(b));
        }
        if b.len() < 3 {
            return None;
        }
        let id = be16_at(b, 0);
        let a = ((b[2] & 0xF0) >> 4) as usize;
        let n = (b[2] & 0x0F) as usize;
        if b.len() - 3 < a + 3 * n {
            return None;
        }
        let e = 3 + a + 3 * n;
        let broadcaster_ids = read_broadcaster_ids(&b[3 + a..e])?;
        let affiliation = &b[3..3 + a];
        let private_data = skip(b, e);
        if t == 1 {
            Some(
                ExtendedBroadcasterDescriptor::DigitalTerrestrialTelevisionBroadcast(
                    DigitalTerrestrialTelevisionBroadcast {
                        terrestrial_broadcaster_id: id,
                        affiliation_id: affiliation,
                        broadcaster_ids,
                        private_data,
                    },
                ),
            )
        } else {
            Some(
                ExtendedBroadcasterDescriptor::DigitalTerrestrialSoundBroadcast(
                    DigitalTerrestrialSoundBroadcast {
                        terrestrial_sound_broadcaster_id: id,
                        sound_broadcast_affiliation_id: affiliation,
                        broadcaster_ids,
                        private_data,
                    },
                ),
            )
        }
    }
}

/// CDT transmission type 1: the CDT is referenced directly by download data identifier.
#[derive(Debug, Clone, PartialEq, Eq)]
pub struct LogoTransmissionCdt1 {
    /// Logo identifier (9 bits).
    pub logo_id: u16,
    /// Logo version (12 bits).
    pub logo_version: u16,
    /// Download data identifier.
    pub download_data_id: u16,
}

/// CDT transmission type 2: the CDT is referenced through the logo identifier.
#[derive(Debug, Clone, PartialEq, Eq)]
pub struct LogoTransmissionCdt2 {
    /// Logo identifier (9 bits).
    pub logo_id: u16,
}

/// Logo transmission descriptor.
#[derive(Debug)]
pub enum LogoTransmissionDescriptor<'a> {
    /// CDT transmission type 1.
    Cdt1(LogoTransmissionCdt1),
    /// CDT transmission type 2.
    Cdt2(LogoTransmissionCdt2),
    /// Simple logo.
    Simple(&'a [u8]),
    /// Reserved.
    Unknown(&'a [u8]),
}

impl<'a> Descriptor<'a> for LogoTransmissionDescriptor<'a> {
    const TAG: u8 = 0xCF;

    open spec fn spec_readable(data: Seq<u8>) -> bool {
        &&& data.len() >= 1
        &&& data[0] == 1 ==> data.len() == 7
        &&& data[0] == 2 ==> data.len() == 3
    }

    open spec fn spec_decodes(data: Seq<u8>, d: Self) -> bool {
        let b = tail(data, 1);
        match d {
            LogoTransmissionDescriptor::Cdt1(x) => data[0] == 1 && x.logo_id == be16(b, 0) & 0x01FF
                && x.logo_version == be16(b, 2) & 0x0FFF && x.download_data_id == be16(b, 4),
            LogoTransmissionDescriptor::Cdt2(x) => data[0] == 2 && x.logo_id == be16(b, 0) & 0x01FF,
            LogoTransmissionDescriptor::Simple(x) => data[0] == 3 && x@ == b,
            LogoTransmissionDescriptor::Unknown(x) => (data[0] == 0 || data[0] > 3) && x@ == b,
        }
    }

    fn read(data: &'a [u8]) -> (r: Option<LogoTransmissionDescriptor<'a>>) {
        if data.len() < 1 {
            return None;
        }
        let b = skip(data, 1);
        match data[0] {
            1 => {
                if b.len() != 6 {
                    return None;
                }
                Some(
                    LogoTransmissionDescriptor::Cdt1(
                        LogoTransmissionCdt1 {
                            logo_id: be16_at(b, 0) & 0x01FF,
                            logo_version: be16_at(b, 2) & 0x0FFF,
                            download_data_id: be16_at(b, 4),
                        },
                    ),
                )
            },
            2 => {
                if b.len() != 2 {
                    return None;
                }
                Some(LogoTransmissionDescriptor::Cdt2(LogoTransmissionCdt2 { logo_id: be16_at(b, 0) & 0x01FF }))
            },
            3 => Some(LogoTransmissionDescriptor::Simple(b)),
            _ => Some(LogoTransmissionDescriptor::Unknown(b)),
        }
    }
}

/// Program pattern of a series descriptor.
#[derive(Debug, Clone, Copy, PartialEq, Eq, Structural)]
pub enum ProgramPattern {
    /// Non-scheduled.
    Nonscheduled,
    /// Regular: several times a week.
    Regular,
    /// About once a week.
    OnceAWeek,
    /// About once a month.
    OnceAMonth,
    /// Several events in a day.
    SeveralEventsInADay,
    /// Division of a long program.
    Division,
    /// For accumulation.
    Accumulation,
    /// Undefined.
    Undefined,
}

/// The program pattern coded by the three-bit value `v`.
pub open spec fn program_pattern_of(v: u8) -> ProgramPattern {
    if v == 0 {
        ProgramPattern::Nonscheduled
    } else if v == 1 {
        ProgramPattern::Regular
    } else if v == 2 {
        ProgramPattern::OnceAWeek
    } else if v == 3 {
        ProgramPattern::OnceAMonth
    } else if v == 4 {
        ProgramPattern::SeveralEventsInADay
    } else if v == 5 {
        ProgramPattern::Division
    } else if v == 6 {
        ProgramPattern::Accumulation
    } else {
        ProgramPattern::Undefined
    }
}

/// Series descriptor.
#[derive(Debug)]
pub struct SeriesDescriptor<'a> {
    /// Series identifier.
    pub series_id: u16,
    /// Repeat label (4 bits).
    pub repeat_label: u8,
    /// Program pattern.
    pub program_pattern: ProgramPattern,
    /// Expiry date.
    pub expire_date: Option<MjdDate>,
    /// Episode number (12 bits).
    pub episode_number: u16,
    /// Last episode number (12 bits).
    pub last_episode_number: u16,
    /// Series name.
    pub series_name: AribStr<'a>,
}

impl<'a> Descriptor<'a> for SeriesDescriptor<'a> {
    const TAG: u8 = 0xD5;

    open spec fn spec_readable(data: Seq<u8>) -> bool {
        data.len() >= 8
    }

    open spec fn spec_decodes(data: Seq<u8>, d: Self) -> bool {
        &&& d.series_id == be16(data, 0)
        &&& d.repeat_label == (data[2] & 0xF0) >> 4
        &&& d.program_pattern == program_pattern_of((data[2] & 0x0E) >> 1)
        &&& d.expire_date == if data[2] & 0x01 != 0 {
            Some(MjdDate(be16(data, 3)))
        } else {
            None
        }
        &&& d.episode_number == be16(data, 5) >> 4
        &&& d.last_episode_number == be16(data, 6) & 0x0FFF
        &&& d.series_name@ == tail(data, 8)
    }

    fn read(data: &'a [u8]) -> (r: Option<SeriesDescriptor<'a>>) {
        if data.len() < 8 {
            return None;
        }
        let program_pattern = match (data[2] & 0x0E) >> 1 {
            0 => ProgramPattern::Nonscheduled,
            1 => ProgramPattern::Regular,
            2 => ProgramPattern::OnceAWeek,
            3 => ProgramPattern::OnceAMonth,
            4 => ProgramPattern::SeveralEventsInADay,
            5 => ProgramPattern::Division,
            6 => ProgramPattern::Accumulation,
            _ => ProgramPattern::Undefined,
        };
        let expire_date = if data[2] & 0x01 != 0 {
            Some(MjdDate::read_at(data, 3))
        } else {
            None
        };
        Some(
            SeriesDescriptor {
                series_id: be16_at(data, 0),
                repeat_label: (data[2] & 0xF0) >> 4,
                program_pattern,
                expire_date,
                episode_number: be16_at(data, 5) >> 4,
                last_episode_number: be16_at(data, 6) & 0x0FFF,
                series_name: AribStr::from_bytes(skip(data, 8)),
            },
        )
    }
}

/// An event of an event group descriptor.
#[derive(Debug, Clone, PartialEq, Eq)]
pub struct ActualEvent {
    /// Service identifier.
    pub service_id: ServiceId,
    /// Event identifier.
    pub event_id: EventId,
}

/// An event in another network, for relays and movements across networks.
#[derive(Debug, Clone, PartialEq, Eq)]
pub struct OtherNetwork {
    /// Original network identifier.
    pub original_network_id: NetworkId,
    /// Transport stream identifier.
    pub transport_stream_id: TransportStreamId,
    /// Service identifier.
    pub service_id: ServiceId,
    /// Event identifier.
    pub event_id: EventId,
}

/// The group of an event group descriptor.
#[derive(Debug)]
pub enum EventGroup<'a> {
    /// Event sharing.
    Common(&'a [u8]),
    /// Event relay.
    Relay(&'a [u8]),
    /// Event movement.
    Movement(&'a [u8]),
    /// Event relay to other networks.
    RelayToOtherNetworks(Vec<OtherNetwork>),
    /// Event movement from other networks.
    MovementFromOtherNetworks(Vec<OtherNetwork>),
    /// Undefined.
    Undefined(&'a [u8]),
}

/// Whether the first `n` four-byte events of `s` have non-zero identifiers.
pub open spec fn actual_events_readable(s: Seq<u8>, n: int) -> bool {
    forall|j: int| 0 <= j < n ==> #[trigger] be16(s, 4 * j) != 0 && be16(s, 4 * j + 2) != 0
}

/// Whether `v` holds the four-byte events of `s`.
pub open spec fn actual_events_decode(s: Seq<u8>, v: Seq<ActualEvent>) -> bool {
    &&& v.len() == s.len() / 4
    &&& forall|j: int|
        0 <= j < v.len() ==> (#[trigger] v[j]).service_id@ == be16(s, 4 * j) && v[j].event_id@
            == be16(s, 4 * j + 2)
}

/// Whether the eight-byte entries of `s` have non-zero identifiers.
pub open spec fn other_networks_readable(s: Seq<u8>) -> bool {
    forall|j: int|
        0 <= j < s.len() / 8 ==> #[trigger] be16(s, 8 * j) != 0 && be16(s, 8 * j + 2) != 0 && be16(
            s,
            8 * j + 4,
        ) != 0 && be16(s, 8 * j + 6) != 0
}

/// Whether `v` holds the eight-byte entries of `s`.
pub open spec fn other_networks_decode(s: Seq<u8>, v: Seq<OtherNetwork>) -> bool {
    &&& v.len() == s.len() / 8
    &&& forall|j: int|
        0 <= j < v.len() ==> (#[trigger] v[j]).original_network_id@ == be16(s, 8 * j)
            && v[j].transport_stream_id@ == be16(s, 8 * j + 2) && v[j].service_id@ == be16(
            s,
            8 * j + 4,
        ) && v[j].event_id@ == be16(s, 8 * j + 6)
}

#[verifier::spinoff_prover]
fn read_actual_events(data: &[u8]) -> (r: Option<Vec<ActualEvent>>)
    requires
        data@.len() % 4 == 0,
    ensures
        r is Some <==> actual_events_readable(data@, (data@.len() / 4) as int),
        r matches Some(v) ==> actual_events_decode(data@, v@),
{
    let mut out: Vec<ActualEvent> = Vec::new();
    let mut pos: usize = 0;
    while data.len() - pos >= 4
        invariant
            pos % 4 == 0,
            data@.len() % 4 == 0,
            pos <= data@.len(),
            out@.len() == pos / 4,
            actual_events_readable(data@, out@.len() as int),
            forall|j: int|
                0 <= j < out@.len() ==> (#[trigger] out@[j]).service_id@ == be16(data@, 4 * j)
                    && out@[j].event_id@ == be16(data@, 4 * j + 2),
        decreases data@.len() - pos,
    {
        let a = be16_at(data, pos);
        let b = be16_at(data, pos + 2);
        let ghost j = (pos / 4) as int;
        assert(be16(data@, 4 * j) == a && be16(data@, 4 * j + 2) == b);
        let service_id = match ServiceId::new(a) {
            Some(x) => x,
            None => {
                return None;
            },
        };
        let event_id = match EventId::new(b) {
            Some(x) => x,
            None => {
                return None;
            },
        };
        out.push(ActualEvent { service_id, event_id });
        pos = pos + 4;
    }
    Some(out)
}

#[verifier::spinoff_prover]
fn read_other_networks(data: &[u8]) -> (r: Option<Vec<OtherNetwork>>)
    ensures
        r is Some <==> other_networks_readable(data@),
        r matches Some(v) ==> other_networks_decode(data@, v@),
{
    let mut out: Vec<OtherNetwork> = Vec::new();
    let mut pos: usize = 0;
    while data.len() - pos >= 8
        invariant
            pos % 8 == 0,
            pos <= data@.len(),
            out@.len() == pos / 8,
            forall|j: int|
                0 <= j < out@.len() ==> #[trigger] be16(data@, 8 * j) != 0 && be16(data@, 8 * j + 2)
                    != 0 && be16(data@, 8 * j + 4) != 0 && be16(data@, 8 * j + 6) != 0,
            forall|j: int|
                0 <= j < out@.len() ==> (#[trigger] out@[j]).original_network_id@ == be16(
                    data@,
                    8 * j,
                ) && out@[j].transport_stream_id@ == be16(data@, 8 * j + 2)
                    && out@[j].service_id@ == be16(data@, 8 * j + 4) && out@[j].event_id@ == be16(
                    data@,
                    8 * j + 6,
                ),
        decreases data@.len() - pos,
    {
        let a = be16_at(data, pos);
        let b = be16_at(data, pos + 2);
        let c = be16_at(data, pos + 4);
        let e = be16_at(data, pos + 6);
        let ghost j = (pos / 8) as int;
        assert(be16(data@, 8 * j) == a && be16(data@, 8 * j + 2) == b && be16(data@, 8 * j + 4)
            == c && be16(data@, 8 * j + 6) == e);
        let original_network_id = match NetworkId::new(a) {
            Some(x) => x,
            None => {
                return None;
            },
        };
        let transport_stream_id = match TransportStreamId::new(b) {
            Some(x) => x,
            None => {
                return None;
            },
        };
        let service_id = match ServiceId::new(c) {
            Some(x) => x,
            None => {
                return None;
            },
        };
        let event_id = match EventId::new(e) {
            Some(x) => x,
            None => {
                return None;
            },
        };
        out.push(OtherNetwork { original_network_id, transport_stream_id, service_id, event_id });
        pos = pos + 8;
    }
    assert(data@.len() / 8 == out@.len());
    Some(out)
}

/// Event group descriptor.
#[derive(Debug)]
pub struct EventGroupDescriptor<'a> {
    /// The events.
    pub events: Vec<ActualEvent>,
    /// The group type and what follows it.
    pub group: EventGroup<'a>,
}

impl<'a> Descriptor<'a> for EventGroupDescriptor<'a> {
    const TAG: u8 = 0xD6;

    open spec fn spec_readable(data: Seq<u8>) -> bool {
        let t = (data[0] & 0xF0) >> 4;
        let n = (data[0] & 0x0F) as int;
        &&& data.len() >= 1
        &&& data.len() >= 1 + 4 * n
        &&& actual_events_readable(data.subrange(1, 1 + 4 * n), n)
        &&& (t == 4 || t == 5) ==> other_networks_readable(tail(data, 1 + 4 * n))
    }

    open spec fn spec_decodes(data: Seq<u8>, d: Self) -> bool {
        let t = (data[0] & 0xF0) >> 4;
        let n = (data[0] & 0x0F) as int;
        let rest = tail(data, 1 + 4 * n);
        &&& actual_events_decode(data.subrange(1, 1 + 4 * n), d.events@)
        &&& match d.group {
            EventGroup::Common(x) => t == 1 && x@ == rest,
            EventGroup::Relay(x) => t == 2 && x@ == rest,
            EventGroup::Movement(x) => t == 3 && x@ == rest,
            EventGroup::RelayToOtherNetworks(v) => t == 4 && other_networks_decode(rest, v@),
            EventGroup::MovementFromOtherNetworks(v) => t == 5 && other_networks_decode(rest, v@),
            EventGroup::Undefined(x) => (t == 0 || t > 5) && x@ == rest,
        }
    }

    fn read(data: &'a [u8]) -> (r: Option<EventGroupDescriptor<'a>>) {
        if data.len() < 1 {
            return None;
        }
        let t = (data[0] & 0xF0) >> 4;
        let n = (data[0] & 0x0F) as usize;
        if data.len() - 1 < 4 * n {
            return None;
        }
        let events = read_actual_events(&data[1..1 + 4 * n])?;
        let rest = skip(data, 1 + 4 * n);
        let group = match t {
            1 => EventGroup::Common(rest),
            2 => EventGroup::Relay(rest),
            3 => EventGroup::Movement(rest),
            4 => EventGroup::RelayToOtherNetworks(read_other_networks(rest)?),
            5 => EventGroup::MovementFromOtherNetworks(read_other_networks(rest)?),
            _ => EventGroup::Undefined(rest),
        };
        Some(EventGroupDescriptor { events, group })
    }
}

/// A table of an SI parameter descriptor.
#[derive(Debug)]
pub struct SiParameterTable<'a> {
    /// Table identifier.
    pub table_id: u8,
    /// Table description.
    pub table_description: &'a [u8],
}

impl<'a> View for SiParameterTable<'a> {
    type V = (u8, Seq<u8>);

    open spec fn view(&self) -> (u8, Seq<u8>) {
        (self.table_id, self.table_description@)
    }
}

/// The tables coded in `s`, or `None` when `s` is not a sequence of complete tables.
pub open spec fn si_tables_of(s: Seq<u8>) -> Option<Seq<(u8, Seq<u8>)>>
    decreases s.len(),
{
    if s.len() == 0 {
        Some(Seq::empty())
    } else if s.len() < 2 || s.len() < 2 + s[1] {
        None
    } else {
        match si_tables_of(tail(s, 2 + s[1])) {
            Some(rest) => Some(seq![(s[0], s.subrange(2, 2 + s[1]))] + rest),
            None => None,
        }
    }
}

/// SI parameter descriptor.
#[derive(Debug)]
pub struct SiParameterDescriptor<'a> {
    /// Parameter version.
    pub parameter_version: u8,
    /// Update date.
    pub update_time: MjdDate,
    /// The tables.
    pub tables: Vec<SiParameterTable<'a>>,
}

impl<'a> Descriptor<'a> for SiParameterDescriptor<'a> {
    const TAG: u8 = 0xD7;

    open spec fn spec_readable(data: Seq<u8>) -> bool {
        data.len() >= 3 && si_tables_of(tail(data, 3)) is Some
    }

    open spec fn spec_decodes(data: Seq<u8>, d: Self) -> bool {
        &&& d.parameter_version == data[0]
        &&& d.update_time == MjdDate(be16(data, 1))
        &&& si_tables_of(tail(data, 3)) == Some(d.tables@.map_values(|t: SiParameterTable<'a>| t@))
    }

    fn read(data: &'a [u8]) -> (r: Option<SiParameterDescriptor<'a>>) {
        if data.len() < 3 {
            return None;
        }
        let start = skip(data, 3);
        let mut rest = start;
        let mut tables: Vec<SiParameterTable<'a>> = Vec::new();
        while rest.len() != 0
            invariant
                data@.len() >= 3,
                start@ == tail(data@, 3),
                si_tables_of(start@) == match si_tables_of(rest@) {
                    Some(r) => Some(tables@.map_values(|t: SiParameterTable<'a>| t@) + r),
                    None => None::<Seq<(u8, Seq<u8>)>>,
                },
            decreases rest@.len(),
        {
            if rest.len() < 2 {
                return None;
            }
            let l = rest[1] as usize;
            if rest.len() - 2 < l {
                return None;
            }
            let t = SiParameterTable { table_id: rest[0], table_description: &rest[2..2 + l] };
            let next = skip(rest, 2 + l);
            let ghost old_view = tables@.map_values(|t: SiParameterTable<'a>| t@);
            let ghost head = t@;
            tables.push(t);
            proof {
                assert(tables@.map_values(|t: SiParameterTable<'a>| t@) =~= old_view.push(head));
                if let Some(r) = si_tables_of(next@) {
                    assert(old_view + (seq![head] + r) =~= old_view.push(head) + r);
                }
            }
            rest = next;
        }
        proof {
            assert(tables@.map_values(|t: SiParameterTable<'a>| t@) + Seq::<(u8, Seq<u8>)>::empty()
                =~= tables@.map_values(|t: SiParameterTable<'a>| t@));
        }
        Some(
            SiParameterDescriptor {
                parameter_version: data[0],
                update_time: MjdDate::read_at(data, 1),
                tables,
            },
        )
    }
}

/// Broadcaster name descriptor.
#[derive(Debug)]
pub struct BroadcasterNameDescriptor<'a> {
    /// Broadcaster name.
    pub broadcaster_name: AribStr<'a>,
}

impl<'a> Descriptor<'a> for BroadcasterNameDescriptor<'a> {
    const TAG: u8 = 0xD8;

    open spec fn spec_readable(data: Seq<u8>) -> bool {
        true
    }

    open spec fn spec_decodes(data: Seq<u8>, d: Self) -> bool {
        d.broadcaster_name@ == data
    }

    fn read(data: &'a [u8]) -> (r: Option<BroadcasterNameDescriptor<'a>>) {
        Some(BroadcasterNameDescriptor { broadcaster_name: AribStr::from_bytes(data) })
    }
}

/// A charging unit of a component group.
#[derive(Debug)]
pub struct CaUnit<'a> {
    /// Charging unit identifier.
    pub ca_unit_id: u8,
    /// Component tags.
    pub component_tag: &'a [u8],
}

impl<'a> View for CaUnit<'a> {
    type V = (u8, Seq<u8>);

    open spec fn view(&self) -> (u8, Seq<u8>) {
        (self.ca_unit_id, self.component_tag@)
    }
}

/// A group of a component group descriptor.
#[derive(Debug)]
pub struct ComponentGroup<'a> {
    /// Component group identifier (4 bits).
    pub component_group_id: u8,
    /// Charging units.
    pub ca_units: Vec<CaUnit<'a>>,
    /// Total bit rate.
    pub total_bit_rate: Option<u8>,
    /// Component group description.
    pub text: AribStr<'a>,
}

/// What a [`ComponentGroup`] holds, as plain values.
pub type ComponentGroupView = (u8, Seq<(u8, Seq<u8>)>, Option<u8>, Seq<u8>);

impl<'a> View for ComponentGroup<'a> {
    type V = ComponentGroupView;

    open spec fn view(&self) -> ComponentGroupView {
        (
            self.component_group_id,
            self.ca_units@.map_values(|u: CaUnit<'a>| u@),
            self.total_bit_rate,
            self.text@,
        )
    }
}

/// The first `n` charging units coded in `s` and what follows them, or `None`
/// when `s` runs short.
///
/// The component tag area of each unit is the first `num_of_component` bytes
/// counted from the unit's own first byte.
pub open spec fn ca_units_of(s: Seq<u8>, n: nat) -> Option<(Seq<(u8, Seq<u8>)>, Seq<u8>)>
    decreases n,
{
    if n == 0 {
        Some((Seq::empty(), s))
    } else if s.len() < 1 || s.len() < (s[0] & 0x0F) {
        None
    } else {
        let c = (s[0] & 0x0F) as int;
        match ca_units_of(tail(s, c), (n - 1) as nat) {
            Some((units, rest)) => Some((seq![((s[0] & 0xF0) >> 4, s.subrange(0, c))] + units, rest)),
            None => None,
        }
    }
}

/// The component group coded at the start of `s` and what follows it, or `None`
/// when `s` runs short.
pub open spec fn component_group_of(s: Seq<u8>, has_rate: bool) -> Option<(ComponentGroupView, Seq<u8>)> {
    if s.len() < 1 {
        None
    } else {
        match ca_units_of(tail(s, 1), (s[0] & 0x0F) as nat) {
            None => None,
            Some((units, r)) => {
                if has_rate && r.len() < 1 {
                    None
                } else {
                    let rate: Option<u8> = if has_rate {
                        Some(r[0])
                    } else {
                        None
                    };
                    let r2 = if has_rate {
                        tail(r, 1)
                    } else {
                        r
                    };
                    if r2.len() < 1 || r2.len() < 1 + r2[0] {
                        None
                    } else {
                        Some(
                            (
                                ((s[0] & 0xF0) >> 4, units, rate, r2.subrange(1, 1 + r2[0])),
                                tail(r2, 1 + r2[0]),
                            ),
                        )
                    }
                }
            },
        }
    }
}

/// The first `n` component groups coded in `s`, or `None` when `s` runs short.
pub open spec fn component_groups_of(s: Seq<u8>, n: nat, has_rate: bool) -> Option<
    Seq<ComponentGroupView>,
>
    decreases n,
{
    if n == 0 {
        Some(Seq::empty())
    } else {
        match component_group_of(s, has_rate) {
            None => None,
            Some((g, rest)) => match component_groups_of(rest, (n - 1) as nat, has_rate) {
                Some(gs) => Some(seq![g] + gs),
                None => None,
            },
        }
    }
}

fn read_ca_units<'a>(data: &'a [u8], n: u8) -> (r: Option<(Vec<CaUnit<'a>>, &'a [u8])>)
    ensures
        r is Some <==> ca_units_of(data@, n as nat) is Some,
        r matches Some((v, rest)) ==> ca_units_of(data@, n as nat) == Some(
            (v@.map_values(|u: CaUnit<'a>| u@), rest@),
        ),
{
    let mut units: Vec<CaUnit<'a>> = Vec::new();
    let mut rest = data;
    let mut k: u8 = 0;
    while k < n
        invariant
            k <= n,
            ca_units_of(data@, n as nat) == match ca_units_of(rest@, (n - k) as nat) {
                Some((u, r)) => Some((units@.map_values(|u: CaUnit<'a>| u@) + u, r)),
                None => None::<(Seq<(u8, Seq<u8>)>, Seq<u8>)>,
            },
        decreases n - k,
    {
        if rest.len() < 1 {
            return None;
        }
        let c = (rest[0] & 0x0F) as usize;
        if rest.len() < c {
            return None;
        }
        let u = CaUnit { ca_unit_id: (rest[0] & 0xF0) >> 4, component_tag: &rest[0..c] };
        let next = skip(rest, c);
        let ghost old_view = units@.map_values(|u: CaUnit<'a>| u@);
        let ghost head = u@;
        units.push(u);
        proof {
            assert(units@.map_values(|u: CaUnit<'a>| u@) =~= old_view.push(head));
            if let Some((us, r)) = ca_units_of(next@, (n - k - 1) as nat) {
                assert(old_view + (seq![head] + us) =~= old_view.push(head) + us);
            }
        }
        rest = next;
        k = k + 1;
    }
    proof {
        assert(units@.map_values(|u: CaUnit<'a>| u@) + Seq::<(u8, Seq<u8>)>::empty() =~= units@.map_values(
            |u: CaUnit<'a>| u@,
        ));
    }
    Some((units, rest))
}

fn read_component_group<'a>(data: &'a [u8], has_rate: bool) -> (r: Option<(ComponentGroup<'a>, &'a [u8])>)
    ensures
        r is Some <==> component_group_of(data@, has_rate) is Some,
        r matches Some((g, rest)) ==> component_group_of(data@, has_rate) == Some((g@, rest@)),
{
    if data.len() < 1 {
        return None;
    }
    let (ca_units, r) = read_ca_units(skip(data, 1), data[0] & 0x0F)?;
    let (total_bit_rate, r2) = if has_rate {
        if r.len() < 1 {
            return None;
        }
        (Some(r[0]), skip(r, 1))
    } else {
        (None, r)
    };
    if r2.len() < 1 {
        return None;
    }
    let tl = r2[0] as usize;
    if r2.len() - 1 < tl {
        return None;
    }
    let g = ComponentGroup {
        component_group_id: (data[0] & 0xF0) >> 4,
        ca_units,
        total_bit_rate,
        text: AribStr::from_bytes(&r2[1..1 + tl]),
    };
    Some((g, skip(r2, 1 + tl)))
}

/// Component group descriptor.
#[derive(Debug)]
pub struct ComponentGroupDescriptor<'a> {
    /// Component group type (3 bits).
    pub component_group_type: u8,
    /// The component groups.
    pub groups: Vec<ComponentGroup<'a>>,
}

impl<'a> Descriptor<'a> for ComponentGroupDescriptor<'a> {
    const TAG: u8 = 0xD9;

    open spec fn spec_readable(data: Seq<u8>) -> bool {
        data.len() >= 1 && component_groups_of(tail(data, 1), (data[0] & 0x0F) as nat, data[0] & 0x10 != 0) is Some
    }

    open spec fn spec_decodes(data: Seq<u8>, d: Self) -> bool {
        &&& d.component_group_type == (data[0] & 0xE0) >> 5
        &&& component_groups_of(tail(data, 1), (data[0] & 0x0F) as nat, data[0] & 0x10 != 0) == Some(
            d.groups@.map_values(|g: ComponentGroup<'a>| g@),
        )
    }

    fn read(data: &'a [u8]) -> (r: Option<ComponentGroupDescriptor<'a>>) {
        if data.len() < 1 {
            return None;
        }
        let n = data[0] & 0x0F;
        let has_rate = data[0] & 0x10 != 0;
        let start = skip(data, 1);
        let mut rest = start;
        let mut groups: Vec<ComponentGroup<'a>> = Vec::new();
        let mut k: u8 = 0;
        while k < n
            invariant
                k <= n,
                data@.len() >= 1,
                n == data@[0] & 0x0F,
                has_rate == (data@[0] & 0x10 != 0),
                start@ == tail(data@, 1),
                component_groups_of(start@, n as nat, has_rate) == match component_groups_of(
                    rest@,
                    (n - k) as nat,
                    has_rate,
                ) {
                    Some(r) => Some(groups@.map_values(|g: ComponentGroup<'a>| g@) + r),
                    None => None::<Seq<ComponentGroupView>>,
                },
            decreases n - k,
        {
            let (g, next) = match read_component_group(rest, has_rate) {
                Some(p) => p,
                None => {
                    return None;
                },
            };
            let ghost old_view = groups@.map_values(|g: ComponentGroup<'a>| g@);
            let ghost head = g@;
            groups.push(g);
            proof {
                assert(groups@.map_values(|g: ComponentGroup<'a>| g@) =~= old_view.push(head));
                if let Some(r) = component_groups_of(next@, (n - k - 1) as nat, has_rate) {
                    assert(old_view + (seq![head] + r) =~= old_view.push(head) + r);
                }
            }
            rest = next;
            k = k + 1;
        }
        proof {
            assert(groups@.map_values(|g: ComponentGroup<'a>| g@) + Seq::<ComponentGroupView>::empty()
                =~= groups@.map_values(|g: ComponentGroup<'a>| g@));
        }
        Some(ComponentGroupDescriptor { component_group_type: (data[0] & 0xE0) >> 5, groups })
    }
}

/// A linked description of an LDT linkage descriptor.
#[derive(Debug, Clone, Copy, PartialEq, Eq, Structural)]
pub struct LdtLinkedDescriptor {
    /// Description identifier.
    pub description_id: u16,
    /// Description type (4 bits).
    pub description_type: u8,
    /// User defined.
    pub user_defined: u8,
}

/// The linked descriptions coded in `s`, four bytes each.
pub open spec fn ldt_linked_of(s: Seq<u8>) -> Seq<LdtLinkedDescriptor> {
    Seq::new(
        (s.len() / 4) as nat,
        |j: int|
            LdtLinkedDescriptor {
                description_id: be16(s, 4 * j),
                description_type: s[4 * j + 2] & 0x0F,
                user_defined: s[4 * j + 3],
            },
    )
}

/// LDT linkage descriptor.
#[derive(Debug, Clone, PartialEq, Eq)]
pub struct LdtLinkageDescriptor {
    /// Original service identifier.
    pub original_service_id: ServiceId,
    /// Transport stream identifier.
    pub transport_stream_id: TransportStreamId,
    /// Original network identifier.
    pub original_network_id: NetworkId,
    /// Linked descriptions.
    pub descriptors: Vec<LdtLinkedDescriptor>,
}

impl Descriptor<'_> for LdtLinkageDescriptor {
    const TAG: u8 = 0xDC;

    open spec fn spec_readable(data: Seq<u8>) -> bool {
        &&& data.len() >= 6
        &&& be16(data, 0) != 0
        &&& be16(data, 2) != 0
        &&& be16(data, 4) != 0
    }

    open spec fn spec_decodes(data: Seq<u8>, d: Self) -> bool {
        &&& d.original_service_id@ == be16(data, 0)
        &&& d.transport_stream_id@ == be16(data, 2)
        &&& d.original_network_id@ == be16(data, 4)
        &&& d.descriptors@ == ldt_linked_of(tail(data, 6))
    }

    fn read(data: &[u8]) -> (r: Option<LdtLinkageDescriptor>) {
        if data.len() < 6 {
            return None;
        }
        let original_service_id = ServiceId::new(be16_at(data, 0))?;
        let transport_stream_id = TransportStreamId::new(be16_at(data, 2))?;
        let original_network_id = NetworkId::new(be16_at(data, 4))?;
        let body = skip(data, 6);
        let mut descriptors: Vec<LdtLinkedDescriptor> = Vec::new();
        let mut pos: usize = 0;
        while body.len() - pos >= 4
            invariant
                pos % 4 == 0,
                pos <= body@.len(),
                descriptors@.len() == pos / 4,
                forall|j: int| 0 <= j < descriptors@.len() ==> descriptors@[j] == ldt_linked_of(body@)[j],
            decreases body@.len() - pos,
        {
            descriptors.push(
                LdtLinkedDescriptor {
                    description_id: be16_at(body, pos),
                    description_type: body[pos + 2] & 0x0F,
                    user_defined: body[pos + 3],
                },
            );
            pos = pos + 4;
        }
        assert(descriptors@ =~= ldt_linked_of(body@));
        Some(
            LdtLinkageDescriptor {
                original_service_id,
                transport_stream_id,
                original_network_id,
                descriptors,
            },
        )
    }
}

} // verus!
