//! Tables defined by ARIB STD-B21.

use vstd::prelude::*;

use crate::isdb::psi::desc::base::{block_bytes, block_readable, block_rest, DescriptorBlock};
use crate::isdb::psi::PsiSection;
use crate::isdb::time::{date_time_at, DateTime};
use crate::isdb::utils::{bcd_seconds, be16, be16_at, read_bcd_second, skip, tail};

use super::b10::{running_status_of, version_indicator_of, RunningStatus, VersionIndicator};

verus! {

/// Discontinuity information table.
#[derive(Debug)]
pub struct Dit {
    /// Transition flag.
    pub transition_flag: bool,
}

impl Dit {
    /// The table identifier of the DIT.
    pub const TABLE_ID: u8 = 0x7E;

    /// Reads a DIT from `psi`.
    pub fn read(psi: &PsiSection) -> (r: Option<Dit>)
        ensures
            r is Some <==> psi.table_id == 0x7E && psi.data@.len() == 1,
            r matches Some(t) ==> t.transition_flag == (psi.data@[0] & 0x80 != 0),
    {
        if psi.table_id != Self::TABLE_ID {
            return None;
        }
        if psi.data.len() != 1 {
            return None;
        }
        Some(Dit { transition_flag: psi.data[0] & 0x80 != 0 })
    }
}

/// A service and event carried in a partial transport stream.
#[derive(Debug)]
pub struct SitService<'a> {
    /// Service identifier.
    pub service_id: u16,
    /// Running status.
    pub running_status: RunningStatus,
    /// Descriptors.
    pub descriptors: DescriptorBlock<'a>,
}

impl<'a> View for SitService<'a> {
    type V = (u16, RunningStatus, Seq<u8>);

    open spec fn view(&self) -> (u16, RunningStatus, Seq<u8>) {
        (self.service_id, self.running_status, self.descriptors@)
    }
}

/// The services coded in `s`, or `None` when `s` is not a sequence of complete ones.
pub open spec fn sit_services_of(s: Seq<u8>) -> Option<Seq<(u16, RunningStatus, Seq<u8>)>>
    decreases s.len(),
{
    if s.len() == 0 {
        Some(Seq::empty())
    } else if s.len() < 4 || !block_readable(tail(s, 2)) {
        None
    } else {
        match sit_services_of(block_rest(tail(s, 2))) {
            Some(rest) => Some(
                seq![(be16(s, 0), running_status_of((s[2] & 0x70) >> 4), block_bytes(tail(s, 2)))]
                    + rest,
            ),
            None => None,
        }
    }
}

/// Selection information table.
#[derive(Debug)]
pub struct Sit<'a> {
    /// Descriptors.
    pub descriptors: DescriptorBlock<'a>,
    /// The services and events.
    pub services: Vec<SitService<'a>>,
}

impl<'a> Sit<'a> {
    /// The table identifier of the SIT.
    pub const TABLE_ID: u8 = 0x7F;

    /// Reads a SIT from `psi`.
    #[verifier::loop_isolation(false)]
    pub fn read(psi: &PsiSection<'a>) -> (r: Option<Sit<'a>>)
        ensures
            r is Some <==> {
                &&& psi.table_id == 0x7F
                &&& psi.syntax is Some
                &&& psi.data@.len() >= 2
                &&& block_readable(psi.data@)
                &&& sit_services_of(block_rest(psi.data@)) is Some
            },
            r matches Some(t) ==> {
                &&& t.descriptors@ == block_bytes(psi.data@)
                &&& sit_services_of(block_rest(psi.data@)) == Some(
                    t.services@.map_values(|s: SitService<'a>| s@),
                )
            },
    {
        if psi.table_id != Self::TABLE_ID {
            return None;
        }
        if psi.syntax.is_none() {
            return None;
        }
        let data = psi.data;
        if data.len() < 2 {
            return None;
        }
        let (descriptors, start) = DescriptorBlock::read(data)?;
        let mut rest = start;
        let mut services: Vec<SitService<'a>> = Vec::new();
        while rest.len() != 0
            invariant
                sit_services_of(start@) == match sit_services_of(rest@) {
                    Some(r) => Some(services@.map_values(|s: SitService<'a>| s@) + r),
                    None => None::<Seq<(u16, RunningStatus, Seq<u8>)>>,
                },
            decreases rest@.len(),
        {
            if rest.len() < 4 {
                return None;
            }
            let (block, next) = match DescriptorBlock::read(skip(rest, 2)) {
                Some(p) => p,
                None => {
                    return None;
                },
            };
            let s = SitService {
                service_id: be16_at(rest, 0),
                running_status: RunningStatus::from((rest[2] & 0x70) >> 4),
                descriptors: block,
            };
            let ghost old_view = services@.map_values(|s: SitService<'a>| s@);
            let ghost head = s@;
            services.push(s);
            proof {
                assert(services@.map_values(|s: SitService<'a>| s@) =~= old_view.push(head));
                if let Some(r) = sit_services_of(next@) {
                    assert(old_view + (seq![head] + r) =~= old_view.push(head) + r);
                }
            }
            rest = next;
        }
        proof {
            assert(services@.map_values(|s: SitService<'a>| s@) + Seq::<(u16, RunningStatus, Seq<u8>)>::empty()
                =~= services@.map_values(|s: SitService<'a>| s@));
        }
        Some(Sit { descriptors, services })
    }
}

/// The start time and duration of a download.
#[derive(Debug, Clone, Copy, PartialEq, Eq, Structural)]
pub struct SdttSchedule {
    /// Start time.
    pub start_time: DateTime,
    /// Duration, in seconds.
    pub duration: u32,
}

/// The schedules coded in `s`, eight bytes each.
pub open spec fn sdtt_schedules_of(s: Seq<u8>) -> Seq<SdttSchedule> {
    Seq::new(
        (s.len() / 8) as nat,
        |j: int| SdttSchedule { start_time: date_time_at(s, 8 * j), duration: bcd_seconds(s, 8 * j + 5) },
    )
}

fn read_sdtt_schedules(data: &[u8]) -> (r: Vec<SdttSchedule>)
    ensures
        r@ == sdtt_schedules_of(data@),
{
    let mut out: Vec<SdttSchedule> = Vec::new();
    let mut pos: usize = 0;
    while data.len() - pos >= 8
        invariant
            pos % 8 == 0,
            pos <= data@.len(),
            out@.len() == pos / 8,
            forall|j: int| 0 <= j < out@.len() ==> out@[j] == sdtt_schedules_of(data@)[j],
        decreases data@.len() - pos,
    {
        out.push(
            SdttSchedule {
                start_time: DateTime::read_at(data, pos),
                duration: read_bcd_second(data, pos + 5),
            },
        );
        pos = pos + 8;
    }
    assert(out@ =~= sdtt_schedules_of(data@));
    out
}

/// A download content.
#[derive(Debug)]
pub struct SdttContent<'a> {
    /// Group (4 bits).
    pub group: u8,
    /// Target version (12 bits).
    pub target_version: u16,
    /// New version (12 bits).
    pub new_version: u16,
    /// Download level (2 bits).
    pub download_level: u8,
    /// Version indicator.
    pub version_indicator: VersionIndicator,
    /// Marker identifier flag.
    pub marker_id_flag: bool,
    /// Schedule time-shift information (4 bits).
    pub schedule_timeshift_information: u8,
    /// Schedules.
    pub schedules: Vec<SdttSchedule>,
    /// Descriptors.
    pub descriptors: DescriptorBlock<'a>,
}

/// What an [`SdttContent`] holds, as plain values.
pub type SdttContentView = (u8, u16, u16, u8, VersionIndicator, bool, u8, Seq<SdttSchedule>, Seq<u8>);

impl<'a> View for SdttContent<'a> {
    type V = SdttContentView;

    open spec fn view(&self) -> SdttContentView {
        (
            self.group,
            self.target_version,
            self.new_version,
            self.download_level,
            self.version_indicator,
            self.marker_id_flag,
            self.schedule_timeshift_information,
            self.schedules@,
            self.descriptors@,
        )
    }
}

/// The content description length of the content at the start of `s`.
pub open spec fn sdtt_cdl(s: Seq<u8>) -> int {
    ((be16(s, 4) & 0xFFF0) >> 4) as int
}

/// The schedule description length of the content at the start of `s`.
pub open spec fn sdtt_sdl(s: Seq<u8>) -> int {
    ((be16(s, 6) & 0xFFF0) >> 4) as int
}

/// The first `n` download contents coded in `s`, or `None` when `s` runs short
/// or a schedule description is longer than its content description.
pub open spec fn sdtt_contents_of(s: Seq<u8>, n: nat) -> Option<Seq<SdttContentView>>
    decreases n,
{
    if n == 0 {
        Some(Seq::empty())
    } else if s.len() < 8 || sdtt_cdl(s) < sdtt_sdl(s) || s.len() < 8 + sdtt_cdl(s) {
        None
    } else {
        let e = 8 + sdtt_sdl(s);
        match sdtt_contents_of(tail(s, 8 + sdtt_cdl(s)), (n - 1) as nat) {
            Some(rest) => Some(
                seq![
                    (
                        (s[0] & 0xF0) >> 4,
                        be16(s, 0) & 0x0FFF,
                        (be16(s, 2) & 0xFFF0) >> 4,
                        (s[3] & 0x0C) >> 2,
                        version_indicator_of(s[3] & 0x03),
                        s[5] & 0x08 != 0,
                        s[7] & 0x0F,
                        sdtt_schedules_of(s.subrange(8, e)),
                        s.subrange(e, 8 + sdtt_cdl(s)),
                    ),
                ] + rest,
            ),
            None => None,
        }
    }
}

/// Software download trigger table.
#[derive(Debug)]
pub struct Sdtt<'a> {
    /// Maker identifier.
    pub maker_id: u8,
    /// Model identifier.
    pub model_id: u8,
    /// Transport stream identifier.
    pub transport_stream_id: u16,
    /// Original network identifier.
    pub original_network_id: u16,
    /// Service identifier.
    pub service_id: u16,
    /// The download contents.
    pub contents: Vec<SdttContent<'a>>,
}

impl<'a> Sdtt<'a> {
    /// The table identifier of the SDTT.
    pub const TABLE_ID: u8 = 0xC3;

    /// Reads an SDTT from `psi`.
    #[verifier::loop_isolation(false)]
    pub fn read(psi: &PsiSection<'a>) -> (r: Option<Sdtt<'a>>)
        ensures
            r is Some <==> {
                &&& psi.table_id == 0xC3
                &&& psi.syntax is Some
                &&& psi.data@.len() >= 7
                &&& sdtt_contents_of(tail(psi.data@, 7), psi.data@[6] as nat) is Some
            },
            r matches Some(t) ==> {
                let d = psi.data@;
                let ext = psi.syntax.unwrap().table_id_extension;
                &&& t.maker_id as int == ext as int / 256
                &&& t.model_id as int == ext as int % 256
                &&& t.transport_stream_id == be16(d, 0)
                &&& t.original_network_id == be16(d, 2)
                &&& t.service_id == be16(d, 4)
                &&& sdtt_contents_of(tail(d, 7), d[6] as nat) == Some(
                    t.contents@.map_values(|c: SdttContent<'a>| c@),
                )
            },
    {
        if psi.table_id != Self::TABLE_ID {
            return None;
        }
        let syntax = match psi.syntax {
            Some(s) => s,
            None => {
                return None;
            },
        };
        let data = psi.data;
        if data.len() < 7 {
            return None;
        }
        let ext = syntax.table_id_extension;
        let n = data[6];
        let start = skip(data, 7);
        let mut rest = start;
        let mut contents: Vec<SdttContent<'a>> = Vec::new();
        let mut k: u8 = 0;
        while k < n
            invariant
                k <= n,
                sdtt_contents_of(start@, n as nat) == match sdtt_contents_of(rest@, (n - k) as nat) {
                    Some(r) => Some(contents@.map_values(|c: SdttContent<'a>| c@) + r),
                    None => None::<Seq<SdttContentView>>,
                },
            decreases n - k,
        {
            if rest.len() < 8 {
                return None;
            }
            let cdl = (be16_at(rest, 4) & 0xFFF0) >> 4;
            let sdl = (be16_at(rest, 6) & 0xFFF0) >> 4;
            if cdl < sdl {
                return None;
            }
            let dl = cdl - sdl;
            if rest.len() - 8 < sdl as usize {
                return None;
            }
            let e = 8 + sdl as usize;
            let b3: u8 = rest[3];
            assert(b3 & 0x03 <= 3) by (bit_vector);
            let (descriptors, next) = match DescriptorBlock::read_with_len(skip(rest, e), dl) {
                Some(p) => p,
                None => {
                    return None;
                },
            };
            let c = SdttContent {
                group: (rest[0] & 0xF0) >> 4,
                target_version: be16_at(rest, 0) & 0x0FFF,
                new_version: (be16_at(rest, 2) & 0xFFF0) >> 4,
                download_level: (rest[3] & 0x0C) >> 2,
                version_indicator: VersionIndicator::new(b3 & 0x03),
                marker_id_flag: rest[5] & 0x08 != 0,
                schedule_timeshift_information: rest[7] & 0x0F,
                schedules: read_sdtt_schedules(&rest[8..e]),
                descriptors,
            };
            let ghost old_view = contents@.map_values(|c: SdttContent<'a>| c@);
            let ghost head = c@;
            proof {
                assert(descriptors@ =~= rest@.subrange(e as int, 8 + sdtt_cdl(rest@)));
                assert(next@ =~= tail(rest@, 8 + sdtt_cdl(rest@)));
            }
            contents.push(c);
            proof {
                assert(contents@.map_values(|c: SdttContent<'a>| c@) =~= old_view.push(head));
                if let Some(r) = sdtt_contents_of(next@, (n - k - 1) as nat) {
                    assert(old_view + (seq![head] + r) =~= old_view.push(head) + r);
                }
            }
            rest = next;
            k = k + 1;
        }
        proof {
            assert(contents@.map_values(|c: SdttContent<'a>| c@) + Seq::<SdttContentView>::empty()
                =~= contents@.map_values(|c: SdttContent<'a>| c@));
        }
        Some(
            Sdtt {
                maker_id: (ext / 256) as u8,
                model_id: (ext % 256) as u8,
                transport_stream_id: be16_at(data, 0),
                original_network_id: be16_at(data, 2),
                service_id: be16_at(data, 4),
                contents,
            },
        )
    }

    /// Whether this SDTT carries BS common data (maker 0xFF, model 0xFE).
    pub fn is_bs_common(&self) -> (r: bool)
        ensures
            r == (self.maker_id == 0xFF && self.model_id == 0xFE),
    {
        self.maker_id == 0xFF && self.model_id == 0xFE
    }
}

/// Data type of a common data table.
#[derive(Debug, Clone, Copy, PartialEq, Eq, Structural)]
pub struct CdtDataType(pub u8);

impl CdtDataType {
    /// The data type of logo data.
    pub const LOGO: u8 = 0x01;
}

/// Common data table.
#[derive(Debug)]
pub struct Cdt<'a> {
    /// Download data identifier.
    pub download_data_id: u16,
    /// Original network identifier.
    pub original_network_id: u16,
    /// Data type.
    pub data_type: CdtDataType,
    /// Descriptors.
    pub descriptors: DescriptorBlock<'a>,
    /// Data module bytes.
    pub data_module: &'a [u8],
}

impl<'a> Cdt<'a> {
    /// The table identifier of the CDT.
    pub const TABLE_ID: u8 = 0xC8;

    /// Reads a CDT from `psi`.
    pub fn read(psi: &PsiSection<'a>) -> (r: Option<Cdt<'a>>)
        ensures
            r is Some <==> {
                &&& psi.table_id == 0xC8
                &&& psi.syntax is Some
                &&& psi.data@.len() >= 5
                &&& block_readable(tail(psi.data@, 3))
            },
            r matches Some(t) ==> {
                let d = psi.data@;
                &&& t.download_data_id == psi.syntax.unwrap().table_id_extension
                &&& t.original_network_id == be16(d, 0)
                &&& t.data_type.0 == d[2]
                &&& t.descriptors@ == block_bytes(tail(d, 3))
                &&& t.data_module@ == block_rest(tail(d, 3))
            },
    {
        if psi.table_id != Self::TABLE_ID {
            return None;
        }
        let syntax = match psi.syntax {
            Some(s) => s,
            None => {
                return None;
            },
        };
        let data = psi.data;
        if data.len() < 5 {
            return None;
        }
        let (descriptors, data_module) = DescriptorBlock::read(skip(data, 3))?;
        Some(
            Cdt {
                download_data_id: syntax.table_id_extension,
                original_network_id: be16_at(data, 0),
                data_type: CdtDataType(data[2]),
                descriptors,
                data_module,
            },
        )
    }
}

} // verus!
