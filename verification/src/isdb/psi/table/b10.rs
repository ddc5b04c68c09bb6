//! Tables defined by ARIB STD-B10, with their related types.

use vstd::prelude::*;
use vstd::std_specs::convert::FromSpecImpl;

use crate::isdb::psi::desc::base::{block_bytes, block_readable, block_rest, DescriptorBlock};
use crate::isdb::psi::desc::iso::{be16_words, read_be16_words};
use crate::isdb::psi::{PsiSection, PsiTable};
use crate::isdb::time::{date_time_at, DateTime};
use crate::isdb::utils::{bcd_seconds, be16, be16_at, be32, be32_at, read_bcd_second, skip, tail};

use super::ids::{EventId, NetworkId, ServiceId, TransportStreamId};
use super::iso::{read_ts_loop, ts_loop_configs, ts_loop_readable, TransportStreamConfig};

verus! {

/// Running status.
#[derive(Debug, Clone, Copy, PartialEq, Eq, Structural)]
pub enum RunningStatus {
    /// Undefined.
    Undefined,
    /// Not running.
    NotRunning,
    /// Starts in a few seconds.
    StartsSoon,
    /// Pausing.
    Pausing,
    /// Running.
    Running,
    /// Reserved.
    Reserved,
}

/// The running status coded by `v`.
pub open spec fn running_status_of(v: u8) -> RunningStatus {
    if v == 0 {
        RunningStatus::Undefined
    } else if v == 1 {
        RunningStatus::NotRunning
    } else if v == 2 {
        RunningStatus::StartsSoon
    } else if v == 3 {
        RunningStatus::Pausing
    } else if v == 4 {
        RunningStatus::Running
    } else {
        RunningStatus::Reserved
    }
}

impl From<u8> for RunningStatus {
    /// Decodes a running status value.
    fn from(value: u8) -> (r: RunningStatus)
        ensures
            r == running_status_of(value),
    {
        match value {
            0 => RunningStatus::Undefined,
            1 => RunningStatus::NotRunning,
            2 => RunningStatus::StartsSoon,
            3 => RunningStatus::Pausing,
            4 => RunningStatus::Running,
            _ => RunningStatus::Reserved,
        }
    }
}

impl FromSpecImpl<u8> for RunningStatus {
    open spec fn obeys_from_spec() -> bool {
        true
    }

    open spec fn from_spec(v: u8) -> RunningStatus {
        running_status_of(v)
    }
}

/// The running status values of ARIB STD-B10 decode as that standard names
/// them: 0 undefined, 1 not running, 2 starting in a few seconds, 3 pausing,
/// 4 running, and every other value reserved; different defined values give
/// different statuses.
pub proof fn law_running_status_table(v: u8, w: u8)
    ensures
        v == 0 ==> running_status_of(v) == RunningStatus::Undefined,
        v == 1 ==> running_status_of(v) == RunningStatus::NotRunning,
        v == 2 ==> running_status_of(v) == RunningStatus::StartsSoon,
        v == 3 ==> running_status_of(v) == RunningStatus::Pausing,
        v == 4 ==> running_status_of(v) == RunningStatus::Running,
        v >= 5 ==> running_status_of(v) == RunningStatus::Reserved,
        v <= 4 && w <= 4 && v != w ==> running_status_of(v) != running_status_of(w),
{
}

/// Version indicator.
#[derive(Debug, Clone, Copy, PartialEq, Eq, Structural)]
pub enum VersionIndicator {
    /// Every version (the content version is not used).
    Whole,
    /// The given version and later ones.
    After,
    /// The given version and earlier ones.
    Before,
    /// Only the given version.
    Only,
}

/// The version indicator coded by the two-bit value `v`.
pub open spec fn version_indicator_of(v: u8) -> VersionIndicator {
    if v == 0 {
        VersionIndicator::Whole
    } else if v == 1 {
        VersionIndicator::After
    } else if v == 2 {
        VersionIndicator::Before
    } else {
        VersionIndicator::Only
    }
}

/// The two-bit version indicators decode as ARIB STD-B21 names them: 0 all
/// versions, 1 the given version and later ones, 2 the given version and
/// earlier ones, 3 only the given version; different values give different
/// indicators.
pub proof fn law_version_indicator_table(v: u8, w: u8)
    ensures
        v == 0 ==> version_indicator_of(v) == VersionIndicator::Whole,
        v == 1 ==> version_indicator_of(v) == VersionIndicator::After,
        v == 2 ==> version_indicator_of(v) == VersionIndicator::Before,
        v == 3 ==> version_indicator_of(v) == VersionIndicator::Only,
        v <= 3 && w <= 3 && v != w ==> version_indicator_of(v) != version_indicator_of(w),
{
}

impl VersionIndicator {
    /// Decodes a two-bit version indicator value.
    pub fn new(value: u8) -> (r: Self)
        requires
            value <= 3,
        ensures
            r == version_indicator_of(value),
    {
        match value {
            0 => VersionIndicator::Whole,
            1 => VersionIndicator::After,
            2 => VersionIndicator::Before,
            _ => VersionIndicator::Only,
        }
    }
}

/// A service of a transport stream.
#[derive(Debug)]
pub struct SdtService<'a> {
    /// Service identifier.
    pub service_id: ServiceId,
    /// Whether an H-EIT is present for the service.
    pub h_eit_flag: bool,
    /// Whether an M-EIT is present for the service.
    pub m_eit_flag: bool,
    /// Whether an L-EIT is present for the service.
    pub l_eit_flag: bool,
    /// EIT schedule flag.
    pub eit_schedule_flag: bool,
    /// EIT present/following flag.
    pub eit_present_following_flag: bool,
    /// Running status.
    pub running_status: RunningStatus,
    /// Free CA mode.
    pub free_ca_mode: bool,
    /// Descriptors.
    pub descriptors: DescriptorBlock<'a>,
}

/// What an [`SdtService`] holds: service identifier, the byte of EIT flags,
/// running status, free CA mode and descriptors.
pub type SdtServiceView = (u16, u8, RunningStatus, bool, Seq<u8>);

impl<'a> View for SdtService<'a> {
    type V = SdtServiceView;

    open spec fn view(&self) -> SdtServiceView {
        let flags: u8 = ((if self.h_eit_flag { 0x10u8 } else { 0 }) + (if self.m_eit_flag { 0x08u8 } else { 0 })
            + (if self.l_eit_flag { 0x04u8 } else { 0 }) + (if self.eit_schedule_flag { 0x02u8 } else { 0 })
            + (if self.eit_present_following_flag { 0x01u8 } else { 0 })) as u8;
        (self.service_id@, flags, self.running_status, self.free_ca_mode, self.descriptors@)
    }
}

/// The five EIT flag bits of `b`.
pub open spec fn eit_flags(b: u8) -> u8 {
    ((if b & 0x10 != 0 { 0x10u8 } else { 0 }) + (if b & 0x08 != 0 { 0x08u8 } else { 0 }) + (if b & 0x04 != 0 { 0x04u8 } else { 0 })
        + (if b & 0x02 != 0 { 0x02u8 } else { 0 }) + (if b & 0x01 != 0 { 0x01u8 } else { 0 })) as u8
}

/// The services coded in `s`, or `None` when `s` is not a sequence of complete ones.
pub open spec fn sdt_services_of(s: Seq<u8>) -> Option<Seq<SdtServiceView>>
    decreases s.len(),
{
    if s.len() == 0 {
        Some(Seq::empty())
    } else if s.len() < 5 || be16(s, 0) == 0 || !block_readable(tail(s, 3)) {
        None
    } else {
        match sdt_services_of(block_rest(tail(s, 3))) {
            Some(rest) => Some(
                seq![
                    (
                        be16(s, 0),
                        eit_flags(s[2]),
                        running_status_of((s[3] & 0xE0) >> 5),
                        s[3] & 0x10 != 0,
                        block_bytes(tail(s, 3)),
                    ),
                ] + rest,
            ),
            None => None,
        }
    }
}

/// The data common to the actual and other service description tables.
#[derive(Debug)]
pub struct SdtCommon<'a> {
    /// Transport stream identifier.
    pub transport_stream_id: TransportStreamId,
    /// Original network identifier.
    pub original_network_id: NetworkId,
    /// The services of the transport stream.
    pub services: Vec<SdtService<'a>>,
}

/// Whether the section `psi` holds readable common SDT data.
pub open spec fn sdt_common_readable(psi: PsiSection) -> bool {
    let d = psi.data@;
    &&& d.len() >= 3
    &&& psi.syntax matches Some(s) && s.table_id_extension != 0
    &&& be16(d, 0) != 0
    &&& sdt_services_of(tail(d, 3)) is Some
}

/// Whether `t` is the common SDT data of the section `psi`.
pub open spec fn sdt_common_decodes<'a>(psi: PsiSection<'a>, t: SdtCommon<'a>) -> bool {
    let d = psi.data@;
    &&& t.transport_stream_id@ == psi.syntax.unwrap().table_id_extension
    &&& t.original_network_id@ == be16(d, 0)
    &&& sdt_services_of(tail(d, 3)) == Some(t.services@.map_values(|s: SdtService<'a>| s@))
}

impl<'a> SdtCommon<'a> {
    /// Reads the common SDT data of `psi`.
    #[verifier::loop_isolation(false)]
    pub fn read(psi: &PsiSection<'a>) -> (r: Option<SdtCommon<'a>>)
        ensures
            r is Some <==> sdt_common_readable(*psi),
            r matches Some(t) ==> sdt_common_decodes(*psi, t),
    {
        let data = psi.data;
        if data.len() < 3 {
            return None;
        }
        let syntax = match psi.syntax {
            Some(s) => s,
            None => {
                return None;
            },
        };
        let transport_stream_id = TransportStreamId::new(syntax.table_id_extension)?;
        let original_network_id = NetworkId::new(be16_at(data, 0))?;
        let start = skip(data, 3);
        let mut rest = start;
        let mut services: Vec<SdtService<'a>> = Vec::new();
        while rest.len() != 0
            invariant
                sdt_services_of(start@) == match sdt_services_of(rest@) {
                    Some(r) => Some(services@.map_values(|s: SdtService<'a>| s@) + r),
                    None => None::<Seq<SdtServiceView>>,
                },
            decreases rest@.len(),
        {
            if rest.len() < 5 {
                return None;
            }
            let service_id = match ServiceId::new(be16_at(rest, 0)) {
                Some(x) => x,
                None => {
                    return None;
                },
            };
            let (descriptors, next) = match DescriptorBlock::read(skip(rest, 3)) {
                Some(p) => p,
                None => {
                    return None;
                },
            };
            let b2 = rest[2];
            let s = SdtService {
                service_id,
                h_eit_flag: b2 & 0x10 != 0,
                m_eit_flag: b2 & 0x08 != 0,
                l_eit_flag: b2 & 0x04 != 0,
                eit_schedule_flag: b2 & 0x02 != 0,
                eit_present_following_flag: b2 & 0x01 != 0,
                running_status: RunningStatus::from((rest[3] & 0xE0) >> 5),
                free_ca_mode: rest[3] & 0x10 != 0,
                descriptors,
            };
            let ghost old_view = services@.map_values(|s: SdtService<'a>| s@);
            let ghost head = s@;
            services.push(s);
            proof {
                assert(services@.map_values(|s: SdtService<'a>| s@) =~= old_view.push(head));
                if let Some(r) = sdt_services_of(next@) {
                    assert(old_view + (seq![head] + r) =~= old_view.push(head) + r);
                }
            }
            rest = next;
        }
        proof {
            assert(services@.map_values(|s: SdtService<'a>| s@) + Seq::<SdtServiceView>::empty()
                =~= services@.map_values(|s: SdtService<'a>| s@));
        }
        Some(SdtCommon { transport_stream_id, original_network_id, services })
    }
}

/// Service description table.
#[derive(Debug)]
pub enum Sdt<'a> {
    /// The SDT of the actual transport stream.
    Actual(SdtCommon<'a>),
    /// The SDT of another transport stream.
    Other(SdtCommon<'a>),
}

impl<'a> Sdt<'a> {
    /// The table identifier of the SDT of the actual transport stream.
    pub const TABLE_ID_ACTUAL: u8 = 0x42;
    /// The table identifier of the SDT of another transport stream.
    pub const TABLE_ID_OTHER: u8 = 0x46;
}

impl<'a> PsiTable<'a> for Sdt<'a> {
    open spec fn spec_readable(psi: PsiSection<'a>) -> bool {
        (psi.table_id == 0x42 || psi.table_id == 0x46) && sdt_common_readable(psi)
    }

    open spec fn spec_decodes(psi: PsiSection<'a>, t: Self) -> bool {
        match t {
            Sdt::Actual(c) => psi.table_id == 0x42 && sdt_common_decodes(psi, c),
            Sdt::Other(c) => psi.table_id == 0x46 && sdt_common_decodes(psi, c),
        }
    }

    fn read(psi: &PsiSection<'a>) -> (r: Option<Self>) {
        if psi.table_id == Self::TABLE_ID_ACTUAL {
            Some(Sdt::Actual(SdtCommon::read(psi)?))
        } else if psi.table_id == Self::TABLE_ID_OTHER {
            Some(Sdt::Other(SdtCommon::read(psi)?))
        } else {
            None
        }
    }
}

/// Bouquet association table.
#[derive(Debug)]
pub struct Bat<'a> {
    /// Bouquet identifier.
    pub bouquet_id: u16,
    /// Bouquet descriptors.
    pub bouquet_descriptors: DescriptorBlock<'a>,
    /// The physical configurations of the transport streams.
    pub transport_streams: Vec<TransportStreamConfig<'a>>,
}

impl<'a> Bat<'a> {
    /// The table identifier of the BAT.
    pub const TABLE_ID: u8 = 0x4A;
}

impl<'a> PsiTable<'a> for Bat<'a> {
    open spec fn spec_readable(psi: PsiSection<'a>) -> bool {
        &&& psi.table_id == 0x4A
        &&& psi.syntax is Some
        &&& psi.data@.len() >= 2
        &&& ts_loop_readable(psi.data@)
    }

    open spec fn spec_decodes(psi: PsiSection<'a>, t: Self) -> bool {
        &&& t.bouquet_id == psi.syntax.unwrap().table_id_extension
        &&& t.bouquet_descriptors@ == block_bytes(psi.data@)
        &&& ts_loop_configs(psi.data@) == Some(
            t.transport_streams@.map_values(|c: TransportStreamConfig<'a>| c@),
        )
    }

    fn read(psi: &PsiSection<'a>) -> (r: Option<Bat<'a>>) {
        if psi.table_id != Self::TABLE_ID {
            return None;
        }
        let syntax = match psi.syntax {
            Some(s) => s,
            None => {
                return None;
            },
        };
        if psi.data.len() < 2 {
            return None;
        }
        let (bouquet_descriptors, transport_streams) = read_ts_loop(psi.data)?;
        Some(Bat { bouquet_id: syntax.table_id_extension, bouquet_descriptors, transport_streams })
    }
}

/// An event of a service.
#[derive(Debug)]
pub struct EitEvent<'a> {
    /// Event identifier.
    pub event_id: EventId,
    /// Start time.
    pub start_time: DateTime,
    /// Duration, in seconds.
    pub duration: u32,
    /// Running status.
    pub running_status: RunningStatus,
    /// Free CA mode.
    pub free_ca_mode: bool,
    /// Descriptors.
    pub descriptors: DescriptorBlock<'a>,
}

/// What an [`EitEvent`] holds, as plain values.
pub type EitEventView = (u16, DateTime, u32, RunningStatus, bool, Seq<u8>);

impl<'a> View for EitEvent<'a> {
    type V = EitEventView;

    open spec fn view(&self) -> EitEventView {
        (
            self.event_id@,
            self.start_time,
            self.duration,
            self.running_status,
            self.free_ca_mode,
            self.descriptors@,
        )
    }
}

/// The events coded in `s`, or `None` when `s` is not a sequence of complete ones.
pub open spec fn eit_events_of(s: Seq<u8>) -> Option<Seq<EitEventView>>
    decreases s.len(),
{
    if s.len() == 0 {
        Some(Seq::empty())
    } else if s.len() < 12 || be16(s, 0) == 0 || !block_readable(tail(s, 10)) {
        None
    } else {
        match eit_events_of(block_rest(tail(s, 10))) {
            Some(rest) => Some(
                seq![
                    (
                        be16(s, 0),
                        date_time_at(s, 2),
                        bcd_seconds(s, 7),
                        running_status_of((s[10] & 0xE0) >> 5),
                        s[10] & 0x10 != 0,
                        block_bytes(tail(s, 10)),
                    ),
                ] + rest,
            ),
            None => None,
        }
    }
}

/// The data common to the event information tables.
#[derive(Debug)]
pub struct EitCommon<'a> {
    /// Service identifier.
    pub service_id: ServiceId,
    /// Section number.
    pub section_number: u8,
    /// Transport stream identifier.
    pub transport_stream_id: TransportStreamId,
    /// Original network identifier.
    pub original_network_id: NetworkId,
    /// Segment last section number.
    pub segment_last_section_number: u8,
    /// Last table identifier.
    pub last_table_id: u8,
    /// The events.
    pub events: Vec<EitEvent<'a>>,
}

/// Whether the section `psi` holds readable common EIT data.
pub open spec fn eit_common_readable(psi: PsiSection) -> bool {
    let d = psi.data@;
    &&& psi.syntax matches Some(s) && s.table_id_extension != 0
    &&& d.len() >= 6
    &&& be16(d, 0) != 0
    &&& be16(d, 2) != 0
    &&& eit_events_of(tail(d, 6)) is Some
}

/// Whether `t` is the common EIT data of the section `psi`.
pub open spec fn eit_common_decodes<'a>(psi: PsiSection<'a>, t: EitCommon<'a>) -> bool {
    let d = psi.data@;
    &&& t.service_id@ == psi.syntax.unwrap().table_id_extension
    &&& t.section_number == psi.syntax.unwrap().section_number
    &&& t.transport_stream_id@ == be16(d, 0)
    &&& t.original_network_id@ == be16(d, 2)
    &&& t.segment_last_section_number == d[4]
    &&& t.last_table_id == d[5]
    &&& eit_events_of(tail(d, 6)) == Some(t.events@.map_values(|e: EitEvent<'a>| e@))
}

impl<'a> EitCommon<'a> {
    /// Reads the common EIT data of `psi`.
    #[verifier::loop_isolation(false)]
    pub fn read(psi: &PsiSection<'a>) -> (r: Option<EitCommon<'a>>)
        ensures
            r is Some <==> eit_common_readable(*psi),
            r matches Some(t) ==> eit_common_decodes(*psi, t),
    {
        let syntax = match psi.syntax {
            Some(s) => s,
            None => {
                return None;
            },
        };
        let data = psi.data;
        if data.len() < 6 {
            return None;
        }
        let service_id = ServiceId::new(syntax.table_id_extension)?;
        let transport_stream_id = TransportStreamId::new(be16_at(data, 0))?;
        let original_network_id = NetworkId::new(be16_at(data, 2))?;
        let start = skip(data, 6);
        let mut rest = start;
        let mut events: Vec<EitEvent<'a>> = Vec::new();
        while rest.len() != 0
            invariant
                eit_events_of(start@) == match eit_events_of(rest@) {
                    Some(r) => Some(events@.map_values(|e: EitEvent<'a>| e@) + r),
                    None => None::<Seq<EitEventView>>,
                },
            decreases rest@.len(),
        {
            if rest.len() < 12 {
                return None;
            }
            let event_id = match EventId::new(be16_at(rest, 0)) {
                Some(x) => x,
                None => {
                    return None;
                },
            };
            let (descriptors, next) = match DescriptorBlock::read(skip(rest, 10)) {
                Some(p) => p,
                None => {
                    return None;
                },
            };
            let e = EitEvent {
                event_id,
                start_time: DateTime::read_at(rest, 2),
                duration: read_bcd_second(rest, 7),
                running_status: RunningStatus::from((rest[10] & 0xE0) >> 5),
                free_ca_mode: rest[10] & 0x10 != 0,
                descriptors,
            };
            let ghost old_view = events@.map_values(|e: EitEvent<'a>| e@);
            let ghost head = e@;
            events.push(e);
            proof {
                assert(events@.map_values(|e: EitEvent<'a>| e@) =~= old_view.push(head));
                if let Some(r) = eit_events_of(next@) {
                    assert(old_view + (seq![head] + r) =~= old_view.push(head) + r);
                }
            }
            rest = next;
        }
        proof {
            assert(events@.map_values(|e: EitEvent<'a>| e@) + Seq::<EitEventView>::empty() =~= events@.map_values(
                |e: EitEvent<'a>| e@,
            ));
        }
        Some(
            EitCommon {
                service_id,
                section_number: syntax.section_number,
                transport_stream_id,
                original_network_id,
                segment_last_section_number: data[4],
                last_table_id: data[5],
                events,
            },
        )
    }
}

/// Event information table.
#[derive(Debug)]
pub enum Eit<'a> {
    /// Present/following events of the actual transport stream.
    ActualPf(EitCommon<'a>),
    /// Present/following events of another transport stream.
    OtherPf(EitCommon<'a>),
    /// Scheduled events of the actual transport stream.
    ActualSchedule(EitCommon<'a>),
    /// Scheduled events of another transport stream.
    OtherSchedule(EitCommon<'a>),
}

impl<'a> Eit<'a> {
    /// The table identifier of present/following events of the actual transport stream.
    pub const TABLE_ID_PF_ACTUAL: u8 = 0x4E;
    /// The table identifier of present/following events of another transport stream.
    pub const TABLE_ID_PF_OTHER: u8 = 0x4F;
    /// The first table identifier of scheduled events of the actual transport stream.
    pub const TABLE_ID_SCHEDULE_ACTUAL_FIRST: u8 = 0x50;
    /// The last table identifier of scheduled events of the actual transport stream.
    pub const TABLE_ID_SCHEDULE_ACTUAL_LAST: u8 = 0x5F;
    /// The first table identifier of scheduled events of another transport stream.
    pub const TABLE_ID_SCHEDULE_OTHER_FIRST: u8 = 0x60;
    /// The last table identifier of scheduled events of another transport stream.
    pub const TABLE_ID_SCHEDULE_OTHER_LAST: u8 = 0x6F;
}

impl<'a> PsiTable<'a> for Eit<'a> {
    open spec fn spec_readable(psi: PsiSection<'a>) -> bool {
        0x4E <= psi.table_id <= 0x6F && eit_common_readable(psi)
    }

    open spec fn spec_decodes(psi: PsiSection<'a>, t: Self) -> bool {
        match t {
            Eit::ActualPf(c) => psi.table_id == 0x4E && eit_common_decodes(psi, c),
            Eit::OtherPf(c) => psi.table_id == 0x4F && eit_common_decodes(psi, c),
            Eit::ActualSchedule(c) => 0x50 <= psi.table_id <= 0x5F && eit_common_decodes(psi, c),
            Eit::OtherSchedule(c) => 0x60 <= psi.table_id <= 0x6F && eit_common_decodes(psi, c),
        }
    }

    fn read(psi: &PsiSection<'a>) -> (r: Option<Eit<'a>>) {
        let t = psi.table_id;
        if t == Self::TABLE_ID_PF_ACTUAL {
            Some(Eit::ActualPf(EitCommon::read(psi)?))
        } else if t == Self::TABLE_ID_PF_OTHER {
            Some(Eit::OtherPf(EitCommon::read(psi)?))
        } else if 0x50 <= t && t <= 0x5F {
            Some(Eit::ActualSchedule(EitCommon::read(psi)?))
        } else if 0x60 <= t && t <= 0x6F {
            Some(Eit::OtherSchedule(EitCommon::read(psi)?))
        } else {
            None
        }
    }
}

/// Time and date table.
#[derive(Debug, Clone, PartialEq, Eq)]
pub struct Tdt {
    /// Current date and time.
    pub jst_time: DateTime,
}

impl Tdt {
    /// The table identifier of the TDT.
    pub const TABLE_ID: u8 = 0x70;
}

impl<'a> PsiTable<'a> for Tdt {
    open spec fn spec_readable(psi: PsiSection<'a>) -> bool {
        psi.table_id == 0x70 && psi.data@.len() == 5
    }

    open spec fn spec_decodes(psi: PsiSection<'a>, t: Self) -> bool {
        t.jst_time == date_time_at(psi.data@, 0)
    }

    fn read(psi: &PsiSection<'a>) -> (r: Option<Tdt>) {
        if psi.table_id != Self::TABLE_ID {
            return None;
        }
        if psi.data.len() != 5 {
            return None;
        }
        Some(Tdt { jst_time: DateTime::read_at(psi.data, 0) })
    }
}

/// The running status of an event.
#[derive(Debug, Clone, PartialEq, Eq)]
pub struct RstStatus {
    /// Transport stream identifier.
    pub transport_stream_id: TransportStreamId,
    /// Original network identifier.
    pub original_network_id: NetworkId,
    /// Service identifier.
    pub service_id: ServiceId,
    /// Event identifier.
    pub event_id: EventId,
    /// Running status.
    pub running_status: RunningStatus,
}

/// Whether the nine-byte entries of `s` have non-zero identifiers.
pub open spec fn rst_readable(s: Seq<u8>) -> bool {
    forall|j: int|
        0 <= j < s.len() / 9 ==> #[trigger] be16(s, 9 * j) != 0 && be16(s, 9 * j + 2) != 0 && be16(
            s,
            9 * j + 4,
        ) != 0 && be16(s, 9 * j + 6) != 0
}

/// Whether `v` holds the nine-byte entries of `s`.
pub open spec fn rst_decodes(s: Seq<u8>, v: Seq<RstStatus>) -> bool {
    &&& v.len() == s.len() / 9
    &&& forall|j: int|
        0 <= j < v.len() ==> (#[trigger] v[j]).transport_stream_id@ == be16(s, 9 * j)
            && v[j].original_network_id@ == be16(s, 9 * j + 2) && v[j].service_id@ == be16(
            s,
            9 * j + 4,
        ) && v[j].event_id@ == be16(s, 9 * j + 6) && v[j].running_status == running_status_of(
            s[9 * j + 8] & 0x07,
        )
}

/// Running status table.
#[derive(Debug, Clone, PartialEq, Eq)]
pub struct Rst {
    /// The running statuses of the events.
    pub statuses: Vec<RstStatus>,
}

impl Rst {
    /// The table identifier of the RST.
    pub const TABLE_ID: u8 = 0x71;
}

impl<'a> PsiTable<'a> for Rst {
    open spec fn spec_readable(psi: PsiSection<'a>) -> bool {
        psi.table_id == 0x71 && rst_readable(psi.data@)
    }

    open spec fn spec_decodes(psi: PsiSection<'a>, t: Self) -> bool {
        rst_decodes(psi.data@, t.statuses@)
    }

    fn read(psi: &PsiSection<'a>) -> (r: Option<Rst>) {
        if psi.table_id != Self::TABLE_ID {
            return None;
        }
        let data = psi.data;
        let mut statuses: Vec<RstStatus> = Vec::new();
        let mut pos: usize = 0;
        while data.len() - pos >= 9
            invariant
                pos % 9 == 0,
                pos <= data@.len(),
                data@ == psi.data@,
                psi.table_id == 0x71,
                statuses@.len() == pos / 9,
                forall|j: int|
                    0 <= j < statuses@.len() ==> #[trigger] be16(data@, 9 * j) != 0 && be16(
                        data@,
                        9 * j + 2,
                    ) != 0 && be16(data@, 9 * j + 4) != 0 && be16(data@, 9 * j + 6) != 0,
                forall|j: int|
                    0 <= j < statuses@.len() ==> (#[trigger] statuses@[j]).transport_stream_id@
                        == be16(data@, 9 * j) && statuses@[j].original_network_id@ == be16(
                        data@,
                        9 * j + 2,
                    ) && statuses@[j].service_id@ == be16(data@, 9 * j + 4)
                        && statuses@[j].event_id@ == be16(data@, 9 * j + 6)
                        && statuses@[j].running_status == running_status_of(
                        data@[9 * j + 8] & 0x07,
                    ),
            decreases data@.len() - pos,
        {
            let a = be16_at(data, pos);
            let b = be16_at(data, pos + 2);
            let c = be16_at(data, pos + 4);
            let e = be16_at(data, pos + 6);
            let ghost j = (pos / 9) as int;
            assert(be16(data@, 9 * j) == a && be16(data@, 9 * j + 2) == b && be16(data@, 9 * j + 4)
                == c && be16(data@, 9 * j + 6) == e && data@[9 * j + 8] == data@[pos + 8]);
            let transport_stream_id = match TransportStreamId::new(a) {
                Some(x) => x,
                None => {
                    return None;
                },
            };
            let original_network_id = match NetworkId::new(b) {
                Some(x) => x,
                None => {
                    return None;
                },
            };
            let service_id = match ServiceId::new(c) {
                Some(x) => x,
                None => {
                    return None;
                },
            };
            let event_id = match EventId::new(e) {
                Some(x) => x,
                None => {
                    return None;
                },
            };
            statuses.push(
                RstStatus {
                    transport_stream_id,
                    original_network_id,
                    service_id,
                    event_id,
                    running_status: RunningStatus::from(data[pos + 8] & 0x07),
                },
            );
            pos = pos + 9;
        }
        assert(data@.len() / 9 == statuses@.len());
        Some(Rst { statuses })
    }
}

/// Time offset table.
#[derive(Debug)]
pub struct Tot<'a> {
    /// Current date and time.
    pub jst_time: DateTime,
    /// Descriptors.
    pub descriptors: DescriptorBlock<'a>,
}

impl<'a> Tot<'a> {
    /// The table identifier of the TOT.
    pub const TABLE_ID: u8 = 0x73;
}

impl<'a> PsiTable<'a> for Tot<'a> {
    open spec fn spec_readable(psi: PsiSection<'a>) -> bool {
        psi.table_id == 0x73 && psi.data@.len() >= 7 && block_readable(tail(psi.data@, 5))
    }

    open spec fn spec_decodes(psi: PsiSection<'a>, t: Self) -> bool {
        t.jst_time == date_time_at(psi.data@, 0) && t.descriptors@ == block_bytes(tail(psi.data@, 5))
    }

    fn read(psi: &PsiSection<'a>) -> (r: Option<Tot<'a>>) {
        if psi.table_id != Self::TABLE_ID {
            return None;
        }
        let data = psi.data;
        if data.len() < 7 {
            return None;
        }
        let (descriptors, _) = DescriptorBlock::read(skip(data, 5))?;
        Some(Tot { jst_time: DateTime::read_at(data, 0), descriptors })
    }
}

/// The start time and duration of a partial content delivery.
#[derive(Debug, Clone, Copy, PartialEq, Eq, Structural)]
pub struct PcatScheduleDescription {
    /// Start time.
    pub start_time: DateTime,
    /// Duration, in seconds.
    pub duration: u32,
}

/// The schedules coded in `s`, eight bytes each.
pub open spec fn schedules_of(s: Seq<u8>) -> Seq<PcatScheduleDescription> {
    Seq::new(
        (s.len() / 8) as nat,
        |j: int|
            PcatScheduleDescription {
                start_time: date_time_at(s, 8 * j),
                duration: bcd_seconds(s, 8 * j + 5),
            },
    )
}

fn read_schedules(data: &[u8]) -> (r: Vec<PcatScheduleDescription>)
    ensures
        r@ == schedules_of(data@),
{
    let mut out: Vec<PcatScheduleDescription> = Vec::new();
    let mut pos: usize = 0;
    while data.len() - pos >= 8
        invariant
            pos % 8 == 0,
            pos <= data@.len(),
            out@.len() == pos / 8,
            forall|j: int| 0 <= j < out@.len() ==> out@[j] == schedules_of(data@)[j],
        decreases data@.len() - pos,
    {
        out.push(
            PcatScheduleDescription {
                start_time: DateTime::read_at(data, pos),
                duration: read_bcd_second(data, pos + 5),
            },
        );
        pos = pos + 8;
    }
    assert(out@ =~= schedules_of(data@));
    out
}

/// A content of a partial content announcement.
#[derive(Debug)]
pub struct PcatContent<'a> {
    /// Content version.
    pub content_version: u16,
    /// Content minor version.
    pub content_minor_version: u16,
    /// Version indicator.
    pub version_indicator: VersionIndicator,
    /// Schedules.
    pub schedule_descriptions: Vec<PcatScheduleDescription>,
    /// Descriptors.
    pub content_descriptors: DescriptorBlock<'a>,
}

/// What a [`PcatContent`] holds, as plain values.
pub type PcatContentView = (u16, u16, VersionIndicator, Seq<PcatScheduleDescription>, Seq<u8>);

impl<'a> View for PcatContent<'a> {
    type V = PcatContentView;

    open spec fn view(&self) -> PcatContentView {
        (
            self.content_version,
            self.content_minor_version,
            self.version_indicator,
            self.schedule_descriptions@,
            self.content_descriptors@,
        )
    }
}

/// The length of the content descriptors of the content at the start of `s`.
pub open spec fn pcat_cdl(s: Seq<u8>) -> int {
    (be16(s, 4) & 0x0FFF) as int
}

/// The length of the schedules of the content at the start of `s`.
pub open spec fn pcat_sdl(s: Seq<u8>) -> int {
    (be16(s, 6) & 0x0FFF) as int
}

/// The first `n` contents coded in `s`, or `None` when `s` runs short.
pub open spec fn pcat_contents_of(s: Seq<u8>, n: nat) -> Option<Seq<PcatContentView>>
    decreases n,
{
    if n == 0 {
        Some(Seq::empty())
    } else if s.len() < 8 || s.len() < 8 + pcat_sdl(s) + pcat_cdl(s) {
        None
    } else {
        let e = 8 + pcat_sdl(s);
        match pcat_contents_of(tail(s, e + pcat_cdl(s)), (n - 1) as nat) {
            Some(rest) => Some(
                seq![
                    (
                        be16(s, 0),
                        be16(s, 2),
                        version_indicator_of((s[4] & 0xC0) >> 6),
                        schedules_of(s.subrange(8, e)),
                        s.subrange(e, e + pcat_cdl(s)),
                    ),
                ] + rest,
            ),
            None => None,
        }
    }
}

/// Partial content announcement table.
#[derive(Debug)]
pub struct Pcat<'a> {
    /// Service identifier.
    pub service_id: ServiceId,
    /// Transport stream identifier.
    pub transport_stream_id: TransportStreamId,
    /// Original network identifier.
    pub original_network_id: NetworkId,
    /// Content identifier.
    pub content_id: u32,
    /// The contents.
    pub contents: Vec<PcatContent<'a>>,
}

impl<'a> Pcat<'a> {
    /// The table identifier of the PCAT.
    pub const TABLE_ID: u8 = 0xC2;
}

impl<'a> PsiTable<'a> for Pcat<'a> {
    open spec fn spec_readable(psi: PsiSection<'a>) -> bool {
        let d = psi.data@;
        &&& psi.table_id == 0xC2
        &&& psi.syntax matches Some(s) && s.table_id_extension != 0
        &&& d.len() >= 9
        &&& be16(d, 0) != 0
        &&& be16(d, 2) != 0
        &&& pcat_contents_of(tail(d, 9), d[8] as nat) is Some
    }

    open spec fn spec_decodes(psi: PsiSection<'a>, t: Self) -> bool {
        let d = psi.data@;
        &&& t.service_id@ == psi.syntax.unwrap().table_id_extension
        &&& t.transport_stream_id@ == be16(d, 0)
        &&& t.original_network_id@ == be16(d, 2)
        &&& t.content_id == be32(d, 4)
        &&& pcat_contents_of(tail(d, 9), d[8] as nat) == Some(
            t.contents@.map_values(|c: PcatContent<'a>| c@),
        )
    }

    #[verifier::loop_isolation(false)]
    fn read(psi: &PsiSection<'a>) -> (r: Option<Pcat<'a>>) {
        if psi.table_id != Self::TABLE_ID {
            return None;
        }
        let syntax = match psi.syntax {
            Some(s) => s,
            None => {
                return None;
            },
        };
        let data = psi.data;
        if data.len() < 9 {
            return None;
        }
        let service_id = ServiceId::new(syntax.table_id_extension)?;
        let transport_stream_id = TransportStreamId::new(be16_at(data, 0))?;
        let original_network_id = NetworkId::new(be16_at(data, 2))?;
        let n = data[8];
        let start = skip(data, 9);
        let mut rest = start;
        let mut contents: Vec<PcatContent<'a>> = Vec::new();
        let mut k: u8 = 0;
        while k < n
            invariant
                k <= n,
                pcat_contents_of(start@, n as nat) == match pcat_contents_of(rest@, (n - k) as nat) {
                    Some(r) => Some(contents@.map_values(|c: PcatContent<'a>| c@) + r),
                    None => None::<Seq<PcatContentView>>,
                },
            decreases n - k,
        {
            if rest.len() < 8 {
                return None;
            }
            let cdl = be16_at(rest, 4) & 0x0FFF;
            let sdl = (be16_at(rest, 6) & 0x0FFF) as usize;
            if rest.len() - 8 < sdl {
                return None;
            }
            let e = 8 + sdl;
            let (content_descriptors, next) = match DescriptorBlock::read_with_len(skip(rest, e), cdl) {
                Some(p) => p,
                None => {
                    return None;
                },
            };
            let b4 = rest[4];
            assert((b4 & 0xC0) >> 6 <= 3) by (bit_vector);
            let c = PcatContent {
                content_version: be16_at(rest, 0),
                content_minor_version: be16_at(rest, 2),
                version_indicator: VersionIndicator::new((rest[4] & 0xC0) >> 6),
                schedule_descriptions: read_schedules(&rest[8..e]),
                content_descriptors,
            };
            let ghost old_view = contents@.map_values(|c: PcatContent<'a>| c@);
            let ghost head = c@;
            proof {
                assert(content_descriptors@ =~= rest@.subrange(e as int, e + pcat_cdl(rest@)));
                assert(next@ =~= tail(rest@, e + pcat_cdl(rest@)));
            }
            contents.push(c);
            proof {
                assert(contents@.map_values(|c: PcatContent<'a>| c@) =~= old_view.push(head));
                if let Some(r) = pcat_contents_of(next@, (n - k - 1) as nat) {
                    assert(old_view + (seq![head] + r) =~= old_view.push(head) + r);
                }
            }
            rest = next;
            k = k + 1;
        }
        proof {
            assert(contents@.map_values(|c: PcatContent<'a>| c@) + Seq::<PcatContentView>::empty()
                =~= contents@.map_values(|c: PcatContent<'a>| c@));
        }
        Some(
            Pcat {
                service_id,
                transport_stream_id,
                original_network_id,
                content_id: be32_at(data, 4),
                contents,
            },
        )
    }
}

/// The information of a broadcaster.
#[derive(Debug)]
pub struct BitBroadcaster<'a> {
    /// Broadcaster identifier.
    pub broadcaster_id: u8,
    /// Broadcaster descriptors.
    pub broadcaster_descriptors: DescriptorBlock<'a>,
}

impl<'a> View for BitBroadcaster<'a> {
    type V = (u8, Seq<u8>);

    open spec fn view(&self) -> (u8, Seq<u8>) {
        (self.broadcaster_id, self.broadcaster_descriptors@)
    }
}

/// The broadcasters coded in `s`, or `None` when `s` is not a sequence of complete ones.
pub open spec fn bit_broadcasters_of(s: Seq<u8>) -> Option<Seq<(u8, Seq<u8>)>>
    decreases s.len(),
{
    if s.len() == 0 {
        Some(Seq::empty())
    } else if s.len() < 3 || !block_readable(tail(s, 1)) {
        None
    } else {
        match bit_broadcasters_of(block_rest(tail(s, 1))) {
            Some(rest) => Some(seq![(s[0], block_bytes(tail(s, 1)))] + rest),
            None => None,
        }
    }
}

/// Broadcaster information table.
#[derive(Debug)]
pub struct Bit<'a> {
    /// Original network identifier.
    pub original_network_id: NetworkId,
    /// Broadcast view propriety.
    pub broadcast_view_propriety: bool,
    /// First descriptors.
    pub first_descriptors: DescriptorBlock<'a>,
    /// The broadcasters.
    pub broadcasters: Vec<BitBroadcaster<'a>>,
}

impl<'a> Bit<'a> {
    /// The table identifier of the BIT.
    pub const TABLE_ID: u8 = 0xC4;
}

impl<'a> PsiTable<'a> for Bit<'a> {
    open spec fn spec_readable(psi: PsiSection<'a>) -> bool {
        let d = psi.data@;
        &&& psi.table_id == 0xC4
        &&& psi.syntax matches Some(s) && s.table_id_extension != 0
        &&& d.len() >= 2
        &&& block_readable(d)
        &&& bit_broadcasters_of(block_rest(d)) is Some
    }

    open spec fn spec_decodes(psi: PsiSection<'a>, t: Self) -> bool {
        let d = psi.data@;
        &&& t.original_network_id@ == psi.syntax.unwrap().table_id_extension
        &&& t.broadcast_view_propriety == (d[0] & 0x10 != 0)
        &&& t.first_descriptors@ == block_bytes(d)
        &&& bit_broadcasters_of(block_rest(d)) == Some(
            t.broadcasters@.map_values(|b: BitBroadcaster<'a>| b@),
        )
    }

    #[verifier::loop_isolation(false)]
    fn read(psi: &PsiSection<'a>) -> (r: Option<Bit<'a>>) {
        if psi.table_id != Self::TABLE_ID {
            return None;
        }
        let syntax = match psi.syntax {
            Some(s) => s,
            None => {
                return None;
            },
        };
        let data = psi.data;
        if data.len() < 2 {
            return None;
        }
        let original_network_id = NetworkId::new(syntax.table_id_extension)?;
        let (first_descriptors, start) = DescriptorBlock::read(data)?;
        let mut rest = start;
        let mut broadcasters: Vec<BitBroadcaster<'a>> = Vec::new();
        while rest.len() != 0
            invariant
                bit_broadcasters_of(start@) == match bit_broadcasters_of(rest@) {
                    Some(r) => Some(broadcasters@.map_values(|b: BitBroadcaster<'a>| b@) + r),
                    None => None::<Seq<(u8, Seq<u8>)>>,
                },
            decreases rest@.len(),
        {
            if rest.len() < 3 {
                return None;
            }
            let (broadcaster_descriptors, next) = match DescriptorBlock::read(skip(rest, 1)) {
                Some(p) => p,
                None => {
                    return None;
                },
            };
            let b = BitBroadcaster { broadcaster_id: rest[0], broadcaster_descriptors };
            let ghost old_view = broadcasters@.map_values(|b: BitBroadcaster<'a>| b@);
            let ghost head = b@;
            broadcasters.push(b);
            proof {
                assert(broadcasters@.map_values(|b: BitBroadcaster<'a>| b@) =~= old_view.push(head));
                if let Some(r) = bit_broadcasters_of(next@) {
                    assert(old_view + (seq![head] + r) =~= old_view.push(head) + r);
                }
            }
            rest = next;
        }
        proof {
            assert(broadcasters@.map_values(|b: BitBroadcaster<'a>| b@) + Seq::<(u8, Seq<u8>)>::empty()
                =~= broadcasters@.map_values(|b: BitBroadcaster<'a>| b@));
        }
        Some(
            Bit {
                original_network_id,
                broadcast_view_propriety: data[0] & 0x10 != 0,
                first_descriptors,
                broadcasters,
            },
        )
    }
}

/// Information type of a board information.
#[derive(Debug, Clone, Copy, PartialEq, Eq, Structural)]
pub enum NbitInformationType {
    /// Undefined.
    Undefined,
    /// Information.
    Information,
    /// Information with service identifiers.
    WithServiceId,
    /// Information with genres.
    WithGenre,
    /// Reserved.
    Reserved,
}

/// Where the body of a board information is described.
#[derive(Debug, Clone, Copy, PartialEq, Eq, Structural)]
pub enum NbitDescriptionBodyLocation {
    /// Undefined.
    Undefined,
    /// In a table of the actual transport stream.
    InActualTsTable,
    /// In a table of the SI prime transport stream.
    InSiPrimeTsTable,
    /// Reserved.
    Reserved,
}

/// The information type coded by `v`.
pub open spec fn nbit_type_of(v: u8) -> NbitInformationType {
    if v == 0 {
        NbitInformationType::Undefined
    } else if v == 1 {
        NbitInformationType::Information
    } else if v == 2 {
        NbitInformationType::WithServiceId
    } else if v == 3 {
        NbitInformationType::WithGenre
    } else {
        NbitInformationType::Reserved
    }
}

/// The description body location coded by the two-bit value `v`.
pub open spec fn nbit_location_of(v: u8) -> NbitDescriptionBodyLocation {
    if v == 0 {
        NbitDescriptionBodyLocation::Undefined
    } else if v == 1 {
        NbitDescriptionBodyLocation::InActualTsTable
    } else if v == 2 {
        NbitDescriptionBodyLocation::InSiPrimeTsTable
    } else {
        NbitDescriptionBodyLocation::Reserved
    }
}

/// A board information such as a guide or a notice.
#[derive(Debug)]
pub struct NbitInformation<'a> {
    /// Information identifier.
    pub information_id: u16,
    /// Information type.
    pub information_type: NbitInformationType,
    /// Description body location.
    pub description_body_location: NbitDescriptionBodyLocation,
    /// User defined.
    pub user_defined: u8,
    /// Key identifiers.
    pub keys: Vec<u16>,
    /// Descriptors.
    pub descriptors: DescriptorBlock<'a>,
}

/// What an [`NbitInformation`] holds, as plain values.
pub type NbitInformationView = (u16, NbitInformationType, NbitDescriptionBodyLocation, u8, Seq<u16>, Seq<u8>);

impl<'a> View for NbitInformation<'a> {
    type V = NbitInformationView;

    open spec fn view(&self) -> NbitInformationView {
        (
            self.information_id,
            self.information_type,
            self.description_body_location,
            self.user_defined,
            self.keys@,
            self.descriptors@,
        )
    }
}

/// The board informations coded in `s`, or `None` when `s` is not a sequence
/// of complete ones.
pub open spec fn nbit_informations_of(s: Seq<u8>) -> Option<Seq<NbitInformationView>>
    decreases s.len(),
{
    if s.len() == 0 {
        Some(Seq::empty())
    } else if s.len() < 5 || s.len() < 5 + 2 * s[4] || !block_readable(tail(s, 5 + 2 * s[4])) {
        None
    } else {
        let b = tail(s, 5 + 2 * s[4]);
        match nbit_informations_of(block_rest(b)) {
            Some(rest) => Some(
                seq![
                    (
                        be16(s, 0),
                        nbit_type_of((s[2] & 0xF0) >> 4),
                        nbit_location_of((s[2] & 0x0C) >> 2),
                        s[3],
                        be16_words(s.subrange(5, 5 + 2 * s[4])),
                        block_bytes(b),
                    ),
                ] + rest,
            ),
            None => None,
        }
    }
}

/// The data common to the network board information tables.
#[derive(Debug)]
pub struct NbitCommon<'a> {
    /// Original network identifier.
    pub original_network_id: NetworkId,
    /// The board informations.
    pub informations: Vec<NbitInformation<'a>>,
}

/// Whether the section `psi` holds readable common NBIT data.
pub open spec fn nbit_common_readable(psi: PsiSection) -> bool {
    &&& psi.syntax matches Some(s) && s.table_id_extension != 0
    &&& nbit_informations_of(psi.data@) is Some
}

/// Whether `t` is the common NBIT data of the section `psi`.
pub open spec fn nbit_common_decodes<'a>(psi: PsiSection<'a>, t: NbitCommon<'a>) -> bool {
    &&& t.original_network_id@ == psi.syntax.unwrap().table_id_extension
    &&& nbit_informations_of(psi.data@) == Some(
        t.informations@.map_values(|i: NbitInformation<'a>| i@),
    )
}

impl<'a> NbitCommon<'a> {
    /// Reads the common NBIT data of `psi`.
    #[verifier::loop_isolation(false)]
    pub fn read(psi: &PsiSection<'a>) -> (r: Option<NbitCommon<'a>>)
        ensures
            r is Some <==> nbit_common_readable(*psi),
            r matches Some(t) ==> nbit_common_decodes(*psi, t),
    {
        let syntax = match psi.syntax {
            Some(s) => s,
            None => {
                return None;
            },
        };
        let original_network_id = NetworkId::new(syntax.table_id_extension)?;
        let start = psi.data;
        let mut rest = start;
        let mut informations: Vec<NbitInformation<'a>> = Vec::new();
        while rest.len() != 0
            invariant
                nbit_informations_of(start@) == match nbit_informations_of(rest@) {
                    Some(r) => Some(informations@.map_values(|i: NbitInformation<'a>| i@) + r),
                    None => None::<Seq<NbitInformationView>>,
                },
            decreases rest@.len(),
        {
            if rest.len() < 5 {
                return None;
            }
            let nk = rest[4] as usize;
            if rest.len() - 5 < 2 * nk {
                return None;
            }
            let (descriptors, next) = match DescriptorBlock::read(skip(rest, 5 + 2 * nk)) {
                Some(p) => p,
                None => {
                    return None;
                },
            };
            let information_type = match (rest[2] & 0xF0) >> 4 {
                0 => NbitInformationType::Undefined,
                1 => NbitInformationType::Information,
                2 => NbitInformationType::WithServiceId,
                3 => NbitInformationType::WithGenre,
                _ => NbitInformationType::Reserved,
            };
            let description_body_location = match (rest[2] & 0x0C) >> 2 {
                0 => NbitDescriptionBodyLocation::Undefined,
                1 => NbitDescriptionBodyLocation::InActualTsTable,
                2 => NbitDescriptionBodyLocation::InSiPrimeTsTable,
                _ => NbitDescriptionBodyLocation::Reserved,
            };
            let i = NbitInformation {
                information_id: be16_at(rest, 0),
                information_type,
                description_body_location,
                user_defined: rest[3],
                keys: read_be16_words(&rest[5..5 + 2 * nk]),
                descriptors,
            };
            let ghost old_view = informations@.map_values(|i: NbitInformation<'a>| i@);
            let ghost head = i@;
            informations.push(i);
            proof {
                assert(informations@.map_values(|i: NbitInformation<'a>| i@) =~= old_view.push(head));
                if let Some(r) = nbit_informations_of(next@) {
                    assert(old_view + (seq![head] + r) =~= old_view.push(head) + r);
                }
            }
            rest = next;
        }
        proof {
            assert(informations@.map_values(|i: NbitInformation<'a>| i@) + Seq::<NbitInformationView>::empty()
                =~= informations@.map_values(|i: NbitInformation<'a>| i@));
        }
        Some(NbitCommon { original_network_id, informations })
    }
}

/// Network board information table.
#[derive(Debug)]
pub enum Nbit<'a> {
    /// The board information bodies.
    Body(NbitCommon<'a>),
    /// The references to obtain board informations.
    Ref(NbitCommon<'a>),
}

impl<'a> Nbit<'a> {
    /// The table identifier of the board information bodies.
    pub const TABLE_ID_BODY: u8 = 0xC5;
    /// The table identifier of the references.
    pub const TABLE_ID_REF: u8 = 0xC6;
}

impl<'a> PsiTable<'a> for Nbit<'a> {
    open spec fn spec_readable(psi: PsiSection<'a>) -> bool {
        (psi.table_id == 0xC5 || psi.table_id == 0xC6) && nbit_common_readable(psi)
    }

    open spec fn spec_decodes(psi: PsiSection<'a>, t: Self) -> bool {
        match t {
            Nbit::Body(c) => psi.table_id == 0xC5 && nbit_common_decodes(psi, c),
            Nbit::Ref(c) => psi.table_id == 0xC6 && nbit_common_decodes(psi, c),
        }
    }

    fn read(psi: &PsiSection<'a>) -> (r: Option<Nbit<'a>>) {
        if psi.table_id == Self::TABLE_ID_BODY {
            Some(Nbit::Body(NbitCommon::read(psi)?))
        } else if psi.table_id == Self::TABLE_ID_REF {
            Some(Nbit::Ref(NbitCommon::read(psi)?))
        } else {
            None
        }
    }
}

/// A description of a linked description table.
#[derive(Debug)]
pub struct LdtDescription<'a> {
    /// Description identifier.
    pub description_id: u16,
    /// Descriptors.
    pub descriptors: DescriptorBlock<'a>,
}

impl<'a> View for LdtDescription<'a> {
    type V = (u16, Seq<u8>);

    open spec fn view(&self) -> (u16, Seq<u8>) {
        (self.description_id, self.descriptors@)
    }
}

/// The entries coded in `s`, each a 16-bit identifier, `skip - 2` ignored bytes
/// and a descriptor block, or `None` when `s` is not a sequence of complete
/// entries of at least `min` bytes.
pub open spec fn id_blocks_of(s: Seq<u8>, min: int, skip_len: int) -> Option<Seq<(u16, Seq<u8>)>>
    decreases s.len(),
{
    if s.len() == 0 {
        Some(Seq::empty())
    } else if s.len() < min || !block_readable(tail(s, skip_len)) || block_rest(tail(s, skip_len)).len() >= s.len() {
        None
    } else {
        match id_blocks_of(block_rest(tail(s, skip_len)), min, skip_len) {
            Some(rest) => Some(seq![(be16(s, 0), block_bytes(tail(s, skip_len)))] + rest),
            None => None,
        }
    }
}

/// Reads entries of a 16-bit identifier and a descriptor block at offset `skip_len`.
fn read_id_blocks<'a>(data: &'a [u8], min: usize, skip_len: usize) -> (r: Option<Vec<(u16, DescriptorBlock<'a>)>>)
    requires
        2 <= skip_len,
        skip_len + 2 <= min,
    ensures
        r is Some <==> id_blocks_of(data@, min as int, skip_len as int) is Some,
        r matches Some(v) ==> id_blocks_of(data@, min as int, skip_len as int) == Some(
            v@.map_values(|e: (u16, DescriptorBlock<'a>)| (e.0, e.1@)),
        ),
{
    let mut out: Vec<(u16, DescriptorBlock<'a>)> = Vec::new();
    let mut rest = data;
    while rest.len() != 0
        invariant
            2 <= skip_len,
            skip_len + 2 <= min,
            id_blocks_of(data@, min as int, skip_len as int) == match id_blocks_of(
                rest@,
                min as int,
                skip_len as int,
            ) {
                Some(r) => Some(out@.map_values(|e: (u16, DescriptorBlock<'a>)| (e.0, e.1@)) + r),
                None => None::<Seq<(u16, Seq<u8>)>>,
            },
        decreases rest@.len(),
    {
        if rest.len() < min {
            return None;
        }
        let (block, next) = match DescriptorBlock::read(skip(rest, skip_len)) {
            Some(p) => p,
            None => {
                return None;
            },
        };
        let e = (be16_at(rest, 0), block);
        let ghost old_view = out@.map_values(|e: (u16, DescriptorBlock<'a>)| (e.0, e.1@));
        let ghost head = (e.0, e.1@);
        out.push(e);
        proof {
            assert(out@.map_values(|e: (u16, DescriptorBlock<'a>)| (e.0, e.1@)) =~= old_view.push(head));
            if let Some(r) = id_blocks_of(next@, min as int, skip_len as int) {
                assert(old_view + (seq![head] + r) =~= old_view.push(head) + r);
            }
        }
        rest = next;
    }
    proof {
        assert(out@.map_values(|e: (u16, DescriptorBlock<'a>)| (e.0, e.1@)) + Seq::<(u16, Seq<u8>)>::empty()
            =~= out@.map_values(|e: (u16, DescriptorBlock<'a>)| (e.0, e.1@)));
    }
    Some(out)
}

/// Linked description table.
#[derive(Debug)]
pub struct Ldt<'a> {
    /// Original service identifier.
    pub original_service_id: ServiceId,
    /// Transport stream identifier.
    pub transport_stream_id: TransportStreamId,
    /// Original network identifier.
    pub original_network_id: NetworkId,
    /// The descriptions.
    pub descriptions: Vec<LdtDescription<'a>>,
}

impl<'a> Ldt<'a> {
    /// The table identifier of the LDT.
    pub const TABLE_ID: u8 = 0xC7;
}

impl<'a> PsiTable<'a> for Ldt<'a> {
    open spec fn spec_readable(psi: PsiSection<'a>) -> bool {
        let d = psi.data@;
        &&& psi.table_id == 0xC7
        &&& psi.syntax matches Some(s) && s.table_id_extension != 0
        &&& d.len() >= 4
        &&& be16(d, 0) != 0
        &&& be16(d, 2) != 0
        &&& id_blocks_of(tail(d, 4), 5, 3) is Some
    }

    open spec fn spec_decodes(psi: PsiSection<'a>, t: Self) -> bool {
        let d = psi.data@;
        &&& t.original_service_id@ == psi.syntax.unwrap().table_id_extension
        &&& t.transport_stream_id@ == be16(d, 0)
        &&& t.original_network_id@ == be16(d, 2)
        &&& id_blocks_of(tail(d, 4), 5, 3) == Some(
            t.descriptions@.map_values(|e: LdtDescription<'a>| e@),
        )
    }

    fn read(psi: &PsiSection<'a>) -> (r: Option<Ldt<'a>>) {
        if psi.table_id != Self::TABLE_ID {
            return None;
        }
        let syntax = match psi.syntax {
            Some(s) => s,
            None => {
                return None;
            },
        };
        let data = psi.data;
        if data.len() < 4 {
            return None;
        }
        let original_service_id = ServiceId::new(syntax.table_id_extension)?;
        let transport_stream_id = TransportStreamId::new(be16_at(data, 0))?;
        let original_network_id = NetworkId::new(be16_at(data, 2))?;
        let entries = read_id_blocks(skip(data, 4), 5, 3)?;
        let descriptions = to_ldt_descriptions(entries);
        Some(Ldt { original_service_id, transport_stream_id, original_network_id, descriptions })
    }
}

fn to_ldt_descriptions<'a>(v: Vec<(u16, DescriptorBlock<'a>)>) -> (r: Vec<LdtDescription<'a>>)
    ensures
        r@.map_values(|e: LdtDescription<'a>| e@) == v@.map_values(
            |e: (u16, DescriptorBlock<'a>)| (e.0, e.1@),
        ),
{
    let mut out: Vec<LdtDescription<'a>> = Vec::new();
    let mut i: usize = 0;
    while i < v.len()
        invariant
            i <= v@.len(),
            out@.len() == i,
            out@.map_values(|e: LdtDescription<'a>| e@) == v@.subrange(0, i as int).map_values(
                |e: (u16, DescriptorBlock<'a>)| (e.0, e.1@),
            ),
        decreases v@.len() - i,
    {
        let e = v[i];
        let ghost old_view = out@.map_values(|e: LdtDescription<'a>| e@);
        out.push(LdtDescription { description_id: e.0, descriptors: e.1 });
        proof {
            assert(out@.map_values(|e: LdtDescription<'a>| e@) =~= old_view.push((e.0, e.1@)));
            assert(v@.subrange(0, i + 1).map_values(|e: (u16, DescriptorBlock<'a>)| (e.0, e.1@))
                =~= v@.subrange(0, i as int).map_values(|e: (u16, DescriptorBlock<'a>)| (e.0, e.1@)).push(
                (e.0, e.1@),
            ));
        }
        i = i + 1;
    }
    assert(v@.subrange(0, v@.len() as int) =~= v@);
    out
}

/// A local event of a program.
#[derive(Debug)]
pub struct LitLocalEvent<'a> {
    /// Local event identifier.
    pub local_event_id: u16,
    /// Descriptors.
    pub descriptors: DescriptorBlock<'a>,
}

impl<'a> View for LitLocalEvent<'a> {
    type V = (u16, Seq<u8>);

    open spec fn view(&self) -> (u16, Seq<u8>) {
        (self.local_event_id, self.descriptors@)
    }
}

fn to_local_events<'a>(v: Vec<(u16, DescriptorBlock<'a>)>) -> (r: Vec<LitLocalEvent<'a>>)
    ensures
        r@.map_values(|e: LitLocalEvent<'a>| e@) == v@.map_values(
            |e: (u16, DescriptorBlock<'a>)| (e.0, e.1@),
        ),
{
    let mut out: Vec<LitLocalEvent<'a>> = Vec::new();
    let mut i: usize = 0;
    while i < v.len()
        invariant
            i <= v@.len(),
            out@.len() == i,
            out@.map_values(|e: LitLocalEvent<'a>| e@) == v@.subrange(0, i as int).map_values(
                |e: (u16, DescriptorBlock<'a>)| (e.0, e.1@),
            ),
        decreases v@.len() - i,
    {
        let e = v[i];
        let ghost old_view = out@.map_values(|e: LitLocalEvent<'a>| e@);
        out.push(LitLocalEvent { local_event_id: e.0, descriptors: e.1 });
        proof {
            assert(out@.map_values(|e: LitLocalEvent<'a>| e@) =~= old_view.push((e.0, e.1@)));
            assert(v@.subrange(0, i + 1).map_values(|e: (u16, DescriptorBlock<'a>)| (e.0, e.1@))
                =~= v@.subrange(0, i as int).map_values(|e: (u16, DescriptorBlock<'a>)| (e.0, e.1@)).push(
                (e.0, e.1@),
            ));
        }
        i = i + 1;
    }
    assert(v@.subrange(0, v@.len() as int) =~= v@);
    out
}

/// Local event information table.
#[derive(Debug)]
pub struct Lit<'a> {
    /// Event identifier.
    pub event_id: EventId,
    /// Service identifier.
    pub service_id: ServiceId,
    /// Transport stream identifier.
    pub transport_stream_id: TransportStreamId,
    /// Original network identifier.
    pub original_network_id: NetworkId,
    /// The local events.
    pub local_events: Vec<LitLocalEvent<'a>>,
}

impl<'a> Lit<'a> {
    /// The table identifier of the LIT.
    pub const TABLE_ID: u8 = 0xD0;
}

impl<'a> PsiTable<'a> for Lit<'a> {
    open spec fn spec_readable(psi: PsiSection<'a>) -> bool {
        let d = psi.data@;
        &&& psi.table_id == 0xD0
        &&& psi.syntax matches Some(s) && s.table_id_extension != 0
        &&& d.len() >= 6
        &&& be16(d, 0) != 0
        &&& be16(d, 2) != 0
        &&& be16(d, 4) != 0
        &&& id_blocks_of(tail(d, 6), 4, 2) is Some
    }

    open spec fn spec_decodes(psi: PsiSection<'a>, t: Self) -> bool {
        let d = psi.data@;
        &&& t.event_id@ == psi.syntax.unwrap().table_id_extension
        &&& t.service_id@ == be16(d, 0)
        &&& t.transport_stream_id@ == be16(d, 2)
        &&& t.original_network_id@ == be16(d, 4)
        &&& id_blocks_of(tail(d, 6), 4, 2) == Some(
            t.local_events@.map_values(|e: LitLocalEvent<'a>| e@),
        )
    }

    fn read(psi: &PsiSection<'a>) -> (r: Option<Lit<'a>>) {
        if psi.table_id != Self::TABLE_ID {
            return None;
        }
        let syntax = match psi.syntax {
            Some(s) => s,
            None => {
                return None;
            },
        };
        let data = psi.data;
        if data.len() < 6 {
            return None;
        }
        let event_id = EventId::new(syntax.table_id_extension)?;
        let service_id = ServiceId::new(be16_at(data, 0))?;
        let transport_stream_id = TransportStreamId::new(be16_at(data, 2))?;
        let original_network_id = NetworkId::new(be16_at(data, 4))?;
        let entries = read_id_blocks(skip(data, 6), 4, 2)?;
        let local_events = to_local_events(entries);
        Some(Lit { event_id, service_id, transport_stream_id, original_network_id, local_events })
    }
}

/// Collection mode of a node of an event relation table.
#[derive(Debug, Clone, Copy, PartialEq, Eq, Structural)]
pub enum ErtCollectionMode {
    /// Group (bag).
    Group,
    /// Concatenation (sequential).
    Concatenation,
    /// Selection (alternate).
    Selection,
    /// Parallel.
    Parallel,
    /// Reserved.
    Reserved,
}

/// Relation type of an event relation table.
#[derive(Debug, Clone, Copy, PartialEq, Eq, Structural)]
pub enum ErtRelationType {
    /// Content description tree.
    ContentsDescription,
    /// Navigation tree.
    Navigation,
    /// Reserved.
    Reserved,
}

/// The collection mode coded by `v`.
pub open spec fn collection_mode_of(v: u8) -> ErtCollectionMode {
    if v == 0 {
        ErtCollectionMode::Group
    } else if v == 1 {
        ErtCollectionMode::Concatenation
    } else if v == 2 {
        ErtCollectionMode::Selection
    } else if v == 3 {
        ErtCollectionMode::Parallel
    } else {
        ErtCollectionMode::Reserved
    }
}

/// The relation type coded by `v`.
pub open spec fn relation_type_of(v: u8) -> ErtRelationType {
    if v == 1 {
        ErtRelationType::ContentsDescription
    } else if v == 2 {
        ErtRelationType::Navigation
    } else {
        ErtRelationType::Reserved
    }
}

/// A node of an event relation table.
#[derive(Debug)]
pub struct ErtNode<'a> {
    /// Node identifier.
    pub node_id: u16,
    /// Collection mode.
    pub collection_mode: ErtCollectionMode,
    /// Parent node identifier.
    pub parent_node_id: u16,
    /// Reference number.
    pub reference_number: u8,
    /// Descriptors.
    pub descriptors: DescriptorBlock<'a>,
}

/// What an [`ErtNode`] holds, as plain values.
pub type ErtNodeView = (u16, ErtCollectionMode, u16, u8, Seq<u8>);

impl<'a> View for ErtNode<'a> {
    type V = ErtNodeView;

    open spec fn view(&self) -> ErtNodeView {
        (self.node_id, self.collection_mode, self.parent_node_id, self.reference_number, self.descriptors@)
    }
}

/// The nodes coded in `s`, or `None` when `s` is not a sequence of complete ones.
pub open spec fn ert_nodes_of(s: Seq<u8>) -> Option<Seq<ErtNodeView>>
    decreases s.len(),
{
    if s.len() == 0 {
        Some(Seq::empty())
    } else if s.len() < 8 || !block_readable(tail(s, 6)) {
        None
    } else {
        match ert_nodes_of(block_rest(tail(s, 6))) {
            Some(rest) => Some(
                seq![
                    (
                        be16(s, 0),
                        collection_mode_of((s[2] & 0xF0) >> 4),
                        be16(s, 3),
                        s[5],
                        block_bytes(tail(s, 6)),
                    ),
                ] + rest,
            ),
            None => None,
        }
    }
}

/// Event relation table.
#[derive(Debug)]
pub struct Ert<'a> {
    /// Event relation identifier.
    pub event_relation_id: u16,
    /// Information provider identifier.
    pub information_provider_id: u16,
    /// Relation type.
    pub relation_type: ErtRelationType,
    /// The nodes.
    pub nodes: Vec<ErtNode<'a>>,
}

impl<'a> Ert<'a> {
    /// The table identifier of the ERT.
    pub const TABLE_ID: u8 = 0xD1;
}

impl<'a> PsiTable<'a> for Ert<'a> {
    open spec fn spec_readable(psi: PsiSection<'a>) -> bool {
        let d = psi.data@;
        &&& psi.table_id == 0xD1
        &&& psi.syntax is Some
        &&& d.len() >= 3
        &&& ert_nodes_of(tail(d, 3)) is Some
    }

    open spec fn spec_decodes(psi: PsiSection<'a>, t: Self) -> bool {
        let d = psi.data@;
        &&& t.event_relation_id == psi.syntax.unwrap().table_id_extension
        &&& t.information_provider_id == be16(d, 0)
        &&& t.relation_type == relation_type_of((d[2] & 0xF0) >> 4)
        &&& ert_nodes_of(tail(d, 3)) == Some(t.nodes@.map_values(|n: ErtNode<'a>| n@))
    }

    #[verifier::loop_isolation(false)]
    fn read(psi: &PsiSection<'a>) -> (r: Option<Ert<'a>>) {
        if psi.table_id != Self::TABLE_ID {
            return None;
        }
        let syntax = match psi.syntax {
            Some(s) => s,
            None => {
                return None;
            },
        };
        let data = psi.data;
        if data.len() < 3 {
            return None;
        }
        let relation_type = match (data[2] & 0xF0) >> 4 {
            1 => ErtRelationType::ContentsDescription,
            2 => ErtRelationType::Navigation,
            _ => ErtRelationType::Reserved,
        };
        let start = skip(data, 3);
        let mut rest = start;
        let mut nodes: Vec<ErtNode<'a>> = Vec::new();
        while rest.len() != 0
            invariant
                ert_nodes_of(start@) == match ert_nodes_of(rest@) {
                    Some(r) => Some(nodes@.map_values(|n: ErtNode<'a>| n@) + r),
                    None => None::<Seq<ErtNodeView>>,
                },
            decreases rest@.len(),
        {
            if rest.len() < 8 {
                return None;
            }
            let (descriptors, next) = match DescriptorBlock::read(skip(rest, 6)) {
                Some(p) => p,
                None => {
                    return None;
                },
            };
            let collection_mode = match (rest[2] & 0xF0) >> 4 {
                0 => ErtCollectionMode::Group,
                1 => ErtCollectionMode::Concatenation,
                2 => ErtCollectionMode::Selection,
                3 => ErtCollectionMode::Parallel,
                _ => ErtCollectionMode::Reserved,
            };
            let n = ErtNode {
                node_id: be16_at(rest, 0),
                collection_mode,
                parent_node_id: be16_at(rest, 3),
                reference_number: rest[5],
                descriptors,
            };
            let ghost old_view = nodes@.map_values(|n: ErtNode<'a>| n@);
            let ghost head = n@;
            nodes.push(n);
            proof {
                assert(nodes@.map_values(|n: ErtNode<'a>| n@) =~= old_view.push(head));
                if let Some(r) = ert_nodes_of(next@) {
                    assert(old_view + (seq![head] + r) =~= old_view.push(head) + r);
                }
            }
            rest = next;
        }
        proof {
            assert(nodes@.map_values(|n: ErtNode<'a>| n@) + Seq::<ErtNodeView>::empty() =~= nodes@.map_values(
                |n: ErtNode<'a>| n@,
            ));
        }
        Some(
            Ert {
                event_relation_id: syntax.table_id_extension,
                information_provider_id: be16_at(data, 0),
                relation_type,
                nodes,
            },
        )
    }
}

/// Index transmission table.
#[derive(Debug)]
pub struct Itt<'a> {
    /// Event identifier.
    pub event_id: EventId,
    /// Descriptors.
    pub descriptors: DescriptorBlock<'a>,
}

impl<'a> Itt<'a> {
    /// The table identifier of the ITT.
    pub const TABLE_ID: u8 = 0xD2;
}

impl<'a> PsiTable<'a> for Itt<'a> {
    open spec fn spec_readable(psi: PsiSection<'a>) -> bool {
        &&& psi.table_id == 0xD2
        &&& psi.syntax matches Some(s) && s.table_id_extension != 0
        &&& block_readable(psi.data@)
    }

    open spec fn spec_decodes(psi: PsiSection<'a>, t: Self) -> bool {
        t.event_id@ == psi.syntax.unwrap().table_id_extension && t.descriptors@ == block_bytes(
            psi.data@,
        )
    }

    fn read(psi: &PsiSection<'a>) -> (r: Option<Itt<'a>>) {
        if psi.table_id != Self::TABLE_ID {
            return None;
        }
        let syntax = match psi.syntax {
            Some(s) => s,
            None => {
                return None;
            },
        };
        let event_id = EventId::new(syntax.table_id_extension)?;
        let (descriptors, _) = DescriptorBlock::read(psi.data)?;
        Some(Itt { event_id, descriptors })
    }
}

} // verus!
