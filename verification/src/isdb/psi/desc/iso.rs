//! Descriptors defined by MPEG-2 Systems and by the Japanese ministerial
//! notification on digital broadcasting, with their related types.

use vstd::prelude::*;

use crate::isdb::pid::{pid_at, Pid};
use crate::isdb::utils::{bcd, be16, be16_at, read_bcd, skip, split_at_checked, tail};

use super::base::Descriptor;

verus! {

/// A service type.
#[derive(Debug, Clone, Copy, PartialEq, Eq, Structural)]
pub struct ServiceType(pub u8);

impl ServiceType {
    /// Digital TV service.
    pub const DIGITAL_TV: u8 = 0x01;
    /// Digital audio service.
    pub const DIGITAL_AUDIO: u8 = 0x02;
    /// Temporary video service.
    pub const TEMPORARY_VIDEO: u8 = 0xA1;
    /// Temporary audio service.
    pub const TEMPORARY_AUDIO: u8 = 0xA2;
    /// Temporary data service.
    pub const TEMPORARY_DATA: u8 = 0xA3;
    /// Engineering service.
    pub const ENGINEERING: u8 = 0xA4;
    /// Promotion video service.
    pub const PROMOTION_VIDEO: u8 = 0xA5;
    /// Promotion audio service.
    pub const PROMOTION_AUDIO: u8 = 0xA6;
    /// Promotion data service.
    pub const PROMOTION_DATA: u8 = 0xA7;
    /// Data service for prior accumulation.
    pub const ACCUMULATION_DATA: u8 = 0xA8;
    /// Accumulation-only data service.
    pub const ACCUMULATION_ONLY_DATA: u8 = 0xA9;
    /// Bookmark list data service.
    pub const BOOKMARK_LIST_DATA: u8 = 0xAA;
    /// Server-type simultaneous service.
    pub const SERVER_TYPE_SIMULTANEOUS: u8 = 0xAB;
    /// Independent file service.
    pub const INDEPENDENT_FILE: u8 = 0xAC;
    /// Ultra high definition (4K) TV service.
    pub const UHD_TV: u8 = 0xAD;
    /// Data service.
    pub const DATA: u8 = 0xC0;
    /// Accumulation service using TLV.
    pub const TLV_ACCUMULATION: u8 = 0xC1;
    /// Multimedia service.
    pub const MULTIMEDIA: u8 = 0xC2;
    /// Invalid.
    pub const INVALID: u8 = 0xFF;

    /// Whether `v` is a defined service type.
    pub open spec fn spec_is_known(v: u8) -> bool {
        v == 0x01 || v == 0x02 || (0xA1 <= v <= 0xAD) || (0xC0 <= v <= 0xC2)
    }

    /// Returns whether this is a defined service type.
    pub fn is_known(&self) -> (r: bool)
        ensures
            r == Self::spec_is_known(self.0),
    {
        let v = self.0;
        v == 0x01 || v == 0x02 || (0xA1 <= v && v <= 0xAD) || (0xC0 <= v && v <= 0xC2)
    }
}

/// A polarization.
#[derive(Debug, Clone, Copy, PartialEq, Eq, Structural)]
pub enum Polarization {
    /// Linear, horizontal.
    LinearHorizontal,
    /// Linear, vertical.
    LinearVertical,
    /// Circular, left.
    CircularLeft,
    /// Circular, right.
    CircularRight,
}

/// The polarization coded by the two-bit value `v`.
pub open spec fn polarization_of(v: u8) -> Polarization {
    if v == 0 {
        Polarization::LinearHorizontal
    } else if v == 1 {
        Polarization::LinearVertical
    } else if v == 2 {
        Polarization::CircularLeft
    } else {
        Polarization::CircularRight
    }
}

fn decode_polarization(v: u8) -> (r: Polarization)
    ensures
        r == polarization_of(v),
{
    match v {
        0 => Polarization::LinearHorizontal,
        1 => Polarization::LinearVertical,
        2 => Polarization::CircularLeft,
        _ => Polarization::CircularRight,
    }
}

/// Conditional access descriptor.
#[derive(Debug)]
pub struct ConditionalAccessDescriptor<'a> {
    /// Conditional access system identifier.
    pub ca_system_id: u16,
    /// Conditional access PID.
    pub ca_pid: Pid,
    /// Private data.
    pub private_data: &'a [u8],
}

impl<'a> Descriptor<'a> for ConditionalAccessDescriptor<'a> {
    const TAG: u8 = 0x09;

    open spec fn spec_readable(data: Seq<u8>) -> bool {
        data.len() >= 4
    }

    open spec fn spec_decodes(data: Seq<u8>, d: Self) -> bool {
        &&& d.ca_system_id == be16(data, 0)
        &&& d.ca_pid.0 == pid_at(data, 2)
        &&& d.private_data@ == tail(data, 4)
    }

    fn read(data: &'a [u8]) -> (r: Option<ConditionalAccessDescriptor<'a>>) {
        if data.len() < 4 {
            return None;
        }
        Some(
            ConditionalAccessDescriptor {
                ca_system_id: be16_at(data, 0),
                ca_pid: Pid::read_at(data, 2),
                private_data: skip(data, 4),
            },
        )
    }
}

/// A service of a service list descriptor.
#[derive(Debug, Clone, Copy, PartialEq, Eq, Structural)]
pub struct ServiceEntry {
    /// Service identifier.
    pub service_id: u16,
    /// Service type.
    pub service_type: ServiceType,
}

/// The entries of a service list held in `s`, three bytes each; a last
/// incomplete entry is ignored.
pub open spec fn service_entries(s: Seq<u8>) -> Seq<ServiceEntry> {
    Seq::new(
        (s.len() / 3) as nat,
        |i: int| ServiceEntry { service_id: be16(s, 3 * i), service_type: ServiceType(s[3 * i + 2]) },
    )
}

/// Service list descriptor.
#[derive(Debug)]
pub struct ServiceListDescriptor {
    /// The services.
    pub services: Vec<ServiceEntry>,
}

impl Descriptor<'_> for ServiceListDescriptor {
    const TAG: u8 = 0x41;

    open spec fn spec_readable(data: Seq<u8>) -> bool {
        true
    }

    open spec fn spec_decodes(data: Seq<u8>, d: Self) -> bool {
        d.services@ == service_entries(data)
    }

    fn read(data: &[u8]) -> (r: Option<ServiceListDescriptor>) {
        let mut services: Vec<ServiceEntry> = Vec::new();
        let mut pos: usize = 0;
        while data.len() - pos >= 3
            invariant
                pos % 3 == 0,
                pos <= data@.len(),
                services@.len() == pos / 3,
                forall|j: int|
                    0 <= j < services@.len() ==> services@[j] == service_entries(data@)[j],
            decreases data@.len() - pos,
        {
            services.push(
                ServiceEntry {
                    service_id: be16_at(data, pos),
                    service_type: ServiceType(data[pos + 2]),
                },
            );
            pos = pos + 3;
        }
        assert(services@ =~= service_entries(data@));
        Some(ServiceListDescriptor { services })
    }
}

/// Satellite delivery system descriptor.
#[derive(Debug)]
pub struct SatelliteDeliverySystemDescriptor {
    /// Frequency, in units of 10 kHz.
    pub frequency: u32,
    /// Orbital position.
    pub orbital_position: u16,
    /// East/west flag.
    pub west_east_flag: bool,
    /// Polarization.
    pub polarization: Polarization,
    /// Modulation (5 bits).
    pub modulation: u8,
    /// Symbol rate.
    pub symbol_rate: u32,
    /// Inner FEC (4 bits).
    pub fec_inner: u8,
}

impl Descriptor<'_> for SatelliteDeliverySystemDescriptor {
    const TAG: u8 = 0x43;

    open spec fn spec_readable(data: Seq<u8>) -> bool {
        data.len() == 11
    }

    open spec fn spec_decodes(data: Seq<u8>, d: Self) -> bool {
        &&& d.frequency == bcd(data, 8)
        &&& d.orbital_position == bcd(data.subrange(4, 6), 4)
        &&& d.west_east_flag == (data[6] & 0x80 != 0)
        &&& d.polarization == polarization_of((data[6] & 0x60) >> 5)
        &&& d.modulation == data[6] & 0x1F
        &&& d.symbol_rate == bcd(data.subrange(7, 11), 7)
        &&& d.fec_inner == data[10] & 0x0F
    }

    fn read(data: &[u8]) -> (r: Option<SatelliteDeliverySystemDescriptor>) {
        if data.len() != 11 {
            return None;
        }
        let frequency = read_bcd(data, 8);
        let orbital = read_bcd(&data[4..6], 4);
        proof {
            crate::isdb::utils::lemma_bcd_bound(data@.subrange(4, 6), 4);
            reveal_with_fuel(crate::isdb::utils::pow10, 5);
        }
        let symbol_rate = read_bcd(&data[7..11], 7);
        Some(
            SatelliteDeliverySystemDescriptor {
                frequency,
                orbital_position: orbital as u16,
                west_east_flag: data[6] & 0x80 != 0,
                polarization: decode_polarization((data[6] & 0x60) >> 5),
                modulation: data[6] & 0x1F,
                symbol_rate,
                fec_inner: data[10] & 0x0F,
            },
        )
    }
}

/// Access control descriptor.
#[derive(Debug)]
pub struct AccessControlDescriptor<'a> {
    /// Conditional access system identifier.
    pub ca_system_id: u16,
    /// Transmission type.
    pub transmission_type: u8,
    /// PID.
    pub pid: Pid,
    /// Private data.
    pub private_data: &'a [u8],
}

impl<'a> Descriptor<'a> for AccessControlDescriptor<'a> {
    const TAG: u8 = 0xF6;

    open spec fn spec_readable(data: Seq<u8>) -> bool {
        data.len() >= 4
    }

    open spec fn spec_decodes(data: Seq<u8>, d: Self) -> bool {
        &&& d.ca_system_id == be16(data, 0)
        &&& d.transmission_type == (data[2] & 0xE0) >> 5
        &&& d.pid.0 == pid_at(data, 2)
        &&& d.private_data@ == tail(data, 4)
    }

    fn read(data: &'a [u8]) -> (r: Option<AccessControlDescriptor<'a>>) {
        if data.len() < 4 {
            return None;
        }
        Some(
            AccessControlDescriptor {
                ca_system_id: be16_at(data, 0),
                transmission_type: (data[2] & 0xE0) >> 5,
                pid: Pid::read_at(data, 2),
                private_data: skip(data, 4),
            },
        )
    }
}

/// Guard interval of a terrestrial delivery system descriptor.
#[derive(Debug, Clone, Copy, PartialEq, Eq, Structural)]
pub enum GuardInterval {
    /// 1/32
    Guard1_32,
    /// 1/16
    Guard1_16,
    /// 1/8
    Guard1_8,
    /// 1/4
    Guard1_4,
}

/// Transmission mode of a terrestrial delivery system descriptor.
#[derive(Debug, Clone, Copy, PartialEq, Eq, Structural)]
pub enum TransmissionMode {
    /// Mode 1.
    Mode1,
    /// Mode 2.
    Mode2,
    /// Mode 3.
    Mode3,
    /// Undefined.
    Undefined,
}

/// The guard interval coded by the two-bit value `v`.
pub open spec fn guard_interval_of(v: u8) -> GuardInterval {
    if v == 0 {
        GuardInterval::Guard1_32
    } else if v == 1 {
        GuardInterval::Guard1_16
    } else if v == 2 {
        GuardInterval::Guard1_8
    } else {
        GuardInterval::Guard1_4
    }
}

/// The transmission mode coded by the two-bit value `v`.
pub open spec fn transmission_mode_of(v: u8) -> TransmissionMode {
    if v == 0 {
        TransmissionMode::Mode1
    } else if v == 1 {
        TransmissionMode::Mode2
    } else if v == 2 {
        TransmissionMode::Mode3
    } else {
        TransmissionMode::Undefined
    }
}

/// The big-endian 16-bit words of `s`; a last odd byte is ignored.
pub open spec fn be16_words(s: Seq<u8>) -> Seq<u16> {
    Seq::new((s.len() / 2) as nat, |i: int| be16(s, 2 * i))
}

/// Reads the big-endian 16-bit words of `data`, ignoring a last odd byte.
pub fn read_be16_words(data: &[u8]) -> (r: Vec<u16>)
    ensures
        r@ == be16_words(data@),
{
    let mut out: Vec<u16> = Vec::new();
    let mut pos: usize = 0;
    while data.len() - pos >= 2
        invariant
            pos % 2 == 0,
            pos <= data@.len(),
            out@.len() == pos / 2,
            forall|j: int| 0 <= j < out@.len() ==> out@[j] == be16_words(data@)[j],
        decreases data@.len() - pos,
    {
        out.push(be16_at(data, pos));
        pos = pos + 2;
    }
    assert(out@ =~= be16_words(data@));
    out
}

/// Terrestrial delivery system descriptor.
#[derive(Debug)]
pub struct TerrestrialDeliverySystemDescriptor {
    /// Area code.
    pub area_code: u16,
    /// Guard interval.
    pub guard_interval: GuardInterval,
    /// Transmission mode.
    pub transmission_mode: TransmissionMode,
    /// Frequencies, in units of 1/7 MHz.
    pub frequencies: Vec<u16>,
}

impl Descriptor<'_> for TerrestrialDeliverySystemDescriptor {
    const TAG: u8 = 0xFA;

    open spec fn spec_readable(data: Seq<u8>) -> bool {
        data.len() >= 2
    }

    open spec fn spec_decodes(data: Seq<u8>, d: Self) -> bool {
        &&& d.area_code == be16(data, 0) >> 4
        &&& d.guard_interval == guard_interval_of((data[1] & 0x0C) >> 2)
        &&& d.transmission_mode == transmission_mode_of(data[1] & 0x03)
        &&& d.frequencies@ == be16_words(tail(data, 2))
    }

    fn read(data: &[u8]) -> (r: Option<TerrestrialDeliverySystemDescriptor>) {
        if data.len() < 2 {
            return None;
        }
        let guard_interval = match (data[1] & 0x0C) >> 2 {
            0 => GuardInterval::Guard1_32,
            1 => GuardInterval::Guard1_16,
            2 => GuardInterval::Guard1_8,
            _ => GuardInterval::Guard1_4,
        };
        let transmission_mode = match data[1] & 0x03 {
            0 => TransmissionMode::Mode1,
            1 => TransmissionMode::Mode2,
            2 => TransmissionMode::Mode3,
            _ => TransmissionMode::Undefined,
        };
        Some(
            TerrestrialDeliverySystemDescriptor {
                area_code: be16_at(data, 0) >> 4,
                guard_interval,
                transmission_mode,
                frequencies: read_be16_words(skip(data, 2)),
            },
        )
    }
}

/// Partial reception descriptor.
#[derive(Debug)]
pub struct PartialReceptionDescriptor {
    /// Service identifiers.
    pub service_ids: Vec<u16>,
}

impl Descriptor<'_> for PartialReceptionDescriptor {
    const TAG: u8 = 0xFB;

    open spec fn spec_readable(data: Seq<u8>) -> bool {
        true
    }

    open spec fn spec_decodes(data: Seq<u8>, d: Self) -> bool {
        d.service_ids@ == be16_words(data)
    }

    fn read(data: &[u8]) -> (r: Option<PartialReceptionDescriptor>) {
        Some(PartialReceptionDescriptor { service_ids: read_be16_words(data) })
    }
}

/// Signal type of an emergency information descriptor.
#[derive(Debug, Clone, Copy, PartialEq, Eq, Structural)]
pub enum SignalType {
    /// First type start signal.
    First,
    /// Second type start signal.
    Second,
}

/// An emergency of an emergency information descriptor.
#[derive(Debug)]
pub struct Emergency {
    /// Service identifier.
    pub service_id: u16,
    /// Start/end flag.
    pub start_end_flag: bool,
    /// Signal type.
    pub signal_level: SignalType,
    /// Area codes (12 bits each).
    pub area_code: Vec<u16>,
}

/// What an [`Emergency`] holds, as plain values.
pub struct EmergencyView {
    /// Service identifier.
    pub service_id: u16,
    /// Start/end flag.
    pub start_end_flag: bool,
    /// Signal type.
    pub signal_level: SignalType,
    /// Area codes.
    pub area_code: Seq<u16>,
}

impl View for Emergency {
    type V = EmergencyView;

    open spec fn view(&self) -> EmergencyView {
        EmergencyView {
            service_id: self.service_id,
            start_end_flag: self.start_end_flag,
            signal_level: self.signal_level,
            area_code: self.area_code@,
        }
    }
}

/// The 12-bit area codes held in the high bits of the words of `s`.
pub open spec fn area_codes(s: Seq<u8>) -> Seq<u16> {
    Seq::new((s.len() / 2) as nat, |i: int| (be16(s, 2 * i) & 0xFFF0) >> 4)
}

/// The size in bytes of the emergency at the start of `s`.
pub open spec fn emergency_len(s: Seq<u8>) -> int {
    4 + 2 * s[3]
}

/// The emergency at the start of `s`.
pub open spec fn emergency_at(s: Seq<u8>) -> EmergencyView {
    EmergencyView {
        service_id: be16(s, 0),
        start_end_flag: s[2] & 0x80 != 0,
        signal_level: if s[2] & 0x40 == 0 {
            SignalType::First
        } else {
            SignalType::Second
        },
        area_code: area_codes(s.subrange(4, emergency_len(s))),
    }
}

/// The emergencies coded in `s`, or `None` when `s` is not a sequence of
/// complete emergencies.
pub open spec fn emergencies_of(s: Seq<u8>) -> Option<Seq<EmergencyView>>
    decreases s.len(),
{
    if s.len() == 0 {
        Some(Seq::empty())
    } else if s.len() < 4 || emergency_len(s) > s.len() {
        None
    } else {
        match emergencies_of(tail(s, emergency_len(s))) {
            Some(rest) => Some(seq![emergency_at(s)] + rest),
            None => None,
        }
    }
}

/// Reads the 12-bit area codes of `data`.
fn read_area_codes(data: &[u8]) -> (r: Vec<u16>)
    ensures
        r@ == area_codes(data@),
{
    let mut out: Vec<u16> = Vec::new();
    let mut pos: usize = 0;
    while data.len() - pos >= 2
        invariant
            pos % 2 == 0,
            pos <= data@.len(),
            out@.len() == pos / 2,
            forall|j: int| 0 <= j < out@.len() ==> out@[j] == area_codes(data@)[j],
        decreases data@.len() - pos,
    {
        out.push((be16_at(data, pos) & 0xFFF0) >> 4);
        pos = pos + 2;
    }
    assert(out@ =~= area_codes(data@));
    out
}

/// Emergency information descriptor.
#[derive(Debug)]
pub struct EmergencyInformationDescriptor {
    /// The emergencies.
    pub emergencies: Vec<Emergency>,
}

impl Descriptor<'_> for EmergencyInformationDescriptor {
    const TAG: u8 = 0xFC;

    open spec fn spec_readable(data: Seq<u8>) -> bool {
        emergencies_of(data) is Some
    }

    open spec fn spec_decodes(data: Seq<u8>, d: Self) -> bool {
        emergencies_of(data) == Some(d.emergencies@.map_values(|e: Emergency| e@))
    }

    fn read(data: &[u8]) -> (r: Option<EmergencyInformationDescriptor>) {
        let mut emergencies: Vec<Emergency> = Vec::new();
        let mut rest = data;
        while rest.len() != 0
            invariant
                emergencies_of(data@) == match emergencies_of(rest@) {
                    Some(r) => Some(emergencies@.map_values(|e: Emergency| e@) + r),
                    None => None::<Seq<EmergencyView>>,
                },
            decreases rest@.len(),
        {
            if rest.len() < 4 {
                return None;
            }
            let area_code_length = rest[3];
            let (_, after_header) = rest.split_at(4);
            let (area, next) = match split_at_checked(after_header, 2 * area_code_length as usize) {
                Some(p) => p,
                None => {
                    return None;
                },
            };
            let e = Emergency {
                service_id: be16_at(rest, 0),
                start_end_flag: rest[2] & 0x80 != 0,
                signal_level: if rest[2] & 0x40 == 0 {
                    SignalType::First
                } else {
                    SignalType::Second
                },
                area_code: read_area_codes(area),
            };
            let ghost old_view = emergencies@.map_values(|e: Emergency| e@);
            proof {
                assert(area@ =~= rest@.subrange(4, emergency_len(rest@)));
                assert(next@ =~= tail(rest@, emergency_len(rest@)));
            }
            emergencies.push(e);
            proof {
                assert(emergencies@.map_values(|e: Emergency| e@) =~= old_view.push(
                    emergency_at(rest@),
                ));
                if let Some(r) = emergencies_of(next@) {
                    assert(old_view + (seq![emergency_at(rest@)] + r) =~= old_view.push(
                        emergency_at(rest@),
                    ) + r);
                }
            }
            rest = next;
        }
        proof {
            assert(emergencies@.map_values(|e: Emergency| e@) + Seq::<EmergencyView>::empty()
                =~= emergencies@.map_values(|e: Emergency| e@));
        }
        Some(EmergencyInformationDescriptor { emergencies })
    }
}

/// Data component descriptor.
#[derive(Debug)]
pub struct DataComponentDescriptor<'a> {
    /// Data component identifier.
    pub data_component_id: u16,
    /// Additional identification information.
    pub additional_data_component_info: &'a [u8],
}

impl<'a> Descriptor<'a> for DataComponentDescriptor<'a> {
    const TAG: u8 = 0xFD;

    open spec fn spec_readable(data: Seq<u8>) -> bool {
        data.len() >= 2
    }

    open spec fn spec_decodes(data: Seq<u8>, d: Self) -> bool {
        &&& d.data_component_id == be16(data, 0)
        &&& d.additional_data_component_info@ == tail(data, 2)
    }

    fn read(data: &'a [u8]) -> (r: Option<DataComponentDescriptor<'a>>) {
        if data.len() < 2 {
            return None;
        }
        Some(
            DataComponentDescriptor {
                data_component_id: be16_at(data, 0),
                additional_data_component_info: skip(data, 2),
            },
        )
    }
}

/// Broadcasting or non-broadcasting.
#[derive(Debug, Clone, Copy, PartialEq, Eq, Structural)]
pub enum BroadcastingType {
    /// Broadcasting.
    Broadcasting,
    /// Non-broadcasting.
    Nonbroadcasting,
    /// Undefined.
    Undefined,
}

/// The broadcasting type coded by the two-bit value `v`.
pub open spec fn broadcasting_type_of(v: u8) -> BroadcastingType {
    if v == 0 {
        BroadcastingType::Broadcasting
    } else if v == 1 || v == 2 {
        BroadcastingType::Nonbroadcasting
    } else {
        BroadcastingType::Undefined
    }
}

/// The standard broadcasting system (6 bits).
#[derive(Debug, Clone, Copy, PartialEq, Eq, Structural)]
pub struct BroadcastingSystem(pub u8);

impl BroadcastingSystem {
    /// Narrow-band satellite digital broadcasting, 27 MHz bandwidth, 12.2-12.75 GHz.
    pub const NARROWBAND_27MHZ: u8 = 0b000001;
    /// Narrow-band satellite digital broadcasting, 34.5 MHz bandwidth, 11.7-12.2 GHz.
    pub const NARROWBAND_34_5MHZ_LOW: u8 = 0b000010;
    /// Terrestrial digital television broadcasting.
    pub const TERRESTRIAL_TELEVISION: u8 = 0b000011;
    /// Narrow-band satellite digital broadcasting, 34.5 MHz bandwidth, 12.2-12.75 GHz.
    pub const NARROWBAND_34_5MHZ_HIGH: u8 = 0b000100;
    /// Terrestrial digital sound broadcasting.
    pub const TERRESTRIAL_SOUND: u8 = 0b000101;
    /// Advanced narrow-band satellite digital broadcasting, 27 MHz bandwidth.
    pub const ADVANCED_NARROWBAND_27MHZ: u8 = 0b000111;
    /// Advanced wide-band satellite digital broadcasting, 11.7-12.2 GHz.
    pub const ADVANCED_BROADBAND_LOW: u8 = 0b001000;
    /// Advanced wide-band satellite digital broadcasting, 12.2-12.75 GHz.
    pub const ADVANCED_BROADBAND_HIGH: u8 = 0b001001;
    /// Segment-connected transmission, 207.5-222 MHz.
    pub const VHF: u8 = 0b001010;
    /// Segment-connected transmission, 99-108 MHz.
    pub const V_LOW: u8 = 0b001011;
}

/// System management descriptor.
#[derive(Debug)]
pub struct SystemManagementDescriptor<'a> {
    /// Broadcasting or non-broadcasting.
    pub broadcasting_flag: BroadcastingType,
    /// Standard broadcasting system.
    pub broadcasting_identifier: BroadcastingSystem,
    /// Additional broadcasting identification.
    pub additional_broadcasting_identification: u8,
    /// Additional identification information.
    pub additional_identification_info: &'a [u8],
}

impl<'a> Descriptor<'a> for SystemManagementDescriptor<'a> {
    const TAG: u8 = 0xFE;

    open spec fn spec_readable(data: Seq<u8>) -> bool {
        data.len() >= 2
    }

    open spec fn spec_decodes(data: Seq<u8>, d: Self) -> bool {
        &&& d.broadcasting_flag == broadcasting_type_of((data[0] & 0xC0) >> 6)
        &&& d.broadcasting_identifier.0 == data[0] & 0x3F
        &&& d.additional_broadcasting_identification == data[1]
        &&& d.additional_identification_info@ == tail(data, 2)
    }

    fn read(data: &'a [u8]) -> (r: Option<SystemManagementDescriptor<'a>>) {
        if data.len() < 2 {
            return None;
        }
        let broadcasting_flag = match (data[0] & 0xC0) >> 6 {
            0 => BroadcastingType::Broadcasting,
            1 | 2 => BroadcastingType::Nonbroadcasting,
            _ => BroadcastingType::Undefined,
        };
        Some(
            SystemManagementDescriptor {
                broadcasting_flag,
                broadcasting_identifier: BroadcastingSystem(data[0] & 0x3F),
                additional_broadcasting_identification: data[1],
                additional_identification_info: skip(data, 2),
            },
        )
    }
}

} // verus!
