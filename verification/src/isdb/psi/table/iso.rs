//! Tables defined by MPEG-2 Systems and by the Japanese ministerial
//! notification on digital broadcasting, with their related types.

use vstd::prelude::*;

use crate::isdb::pid::{pid_at, Pid};
use crate::isdb::psi::desc::base::{block_bytes, block_readable, block_rest, DescriptorBlock};
use crate::isdb::psi::desc::b10::StreamType;
use crate::isdb::psi::{PsiSection, PsiTable};
use crate::isdb::utils::{be16, be16_at, skip, tail};

use super::ids::{NetworkId, ServiceId, TransportStreamId};

verus! {

/// The physical configuration of a transport stream.
#[derive(Debug)]
pub struct TransportStreamConfig<'a> {
    /// Transport stream identifier.
    pub transport_stream_id: TransportStreamId,
    /// Original network identifier.
    pub original_network_id: NetworkId,
    /// Transport descriptors.
    pub transport_descriptors: DescriptorBlock<'a>,
}

impl<'a> View for TransportStreamConfig<'a> {
    type V = (u16, u16, Seq<u8>);

    open spec fn view(&self) -> (u16, u16, Seq<u8>) {
        (self.transport_stream_id@, self.original_network_id@, self.transport_descriptors@)
    }
}

/// The transport stream configurations coded in `s`, or `None` when `s` is not
/// a sequence of complete ones with non-zero identifiers.
pub open spec fn ts_configs_of(s: Seq<u8>) -> Option<Seq<(u16, u16, Seq<u8>)>>
    decreases s.len(),
{
    if s.len() == 0 {
        Some(Seq::empty())
    } else if s.len() < 6 || be16(s, 0) == 0 || be16(s, 2) == 0 || !block_readable(tail(s, 4)) {
        None
    } else {
        match ts_configs_of(block_rest(tail(s, 4))) {
            Some(rest) => Some(seq![(be16(s, 0), be16(s, 2), block_bytes(tail(s, 4)))] + rest),
            None => None,
        }
    }
}

/// Reads the transport stream configurations of a transport stream loop.
pub fn read_ts_configs<'a>(data: &'a [u8]) -> (r: Option<Vec<TransportStreamConfig<'a>>>)
    ensures
        r is Some <==> ts_configs_of(data@) is Some,
        r matches Some(v) ==> ts_configs_of(data@) == Some(
            v@.map_values(|c: TransportStreamConfig<'a>| c@),
        ),
{
    let mut out: Vec<TransportStreamConfig<'a>> = Vec::new();
    let mut rest = data;
    while rest.len() != 0
        invariant
            ts_configs_of(data@) == match ts_configs_of(rest@) {
                Some(r) => Some(out@.map_values(|c: TransportStreamConfig<'a>| c@) + r),
                None => None::<Seq<(u16, u16, Seq<u8>)>>,
            },
        decreases rest@.len(),
    {
        if rest.len() < 6 {
            return None;
        }
        let transport_stream_id = match TransportStreamId::new(be16_at(rest, 0)) {
            Some(x) => x,
            None => {
                return None;
            },
        };
        let original_network_id = match NetworkId::new(be16_at(rest, 2)) {
            Some(x) => x,
            None => {
                return None;
            },
        };
        let (transport_descriptors, next) = match DescriptorBlock::read(skip(rest, 4)) {
            Some(p) => p,
            None => {
                return None;
            },
        };
        let c = TransportStreamConfig { transport_stream_id, original_network_id, transport_descriptors };
        let ghost old_view = out@.map_values(|c: TransportStreamConfig<'a>| c@);
        let ghost head = c@;
        out.push(c);
        proof {
            assert(out@.map_values(|c: TransportStreamConfig<'a>| c@) =~= old_view.push(head));
            if let Some(r) = ts_configs_of(next@) {
                assert(old_view + (seq![head] + r) =~= old_view.push(head) + r);
            }
        }
        rest = next;
    }
    proof {
        assert(out@.map_values(|c: TransportStreamConfig<'a>| c@) + Seq::<(u16, u16, Seq<u8>)>::empty()
            =~= out@.map_values(|c: TransportStreamConfig<'a>| c@));
    }
    Some(out)
}

/// Where a program map table is found.
#[derive(Debug, Clone, Copy, PartialEq, Eq)]
pub struct PatProgram {
    /// Program number.
    pub program_number: ServiceId,
    /// PID of the program map table.
    pub program_map_pid: Pid,
}

impl View for PatProgram {
    type V = (u16, u16);

    open spec fn view(&self) -> (u16, u16) {
        (self.program_number@, self.program_map_pid.0)
    }
}

/// The programs among the first `n` four-byte entries of `s`.
pub open spec fn pat_programs(s: Seq<u8>, n: nat) -> Seq<(u16, u16)>
    decreases n,
{
    if n == 0 {
        Seq::empty()
    } else {
        let k = n - 1;
        let before = pat_programs(s, k as nat);
        if be16(s, 4 * k) != 0 {
            before.push((be16(s, 4 * k), pid_at(s, 4 * k + 2)))
        } else {
            before
        }
    }
}

/// The network PID given by the last entry with program number zero among the
/// first `n` four-byte entries of `s`, or the null PID when there is none.
pub open spec fn pat_network_pid(s: Seq<u8>, n: nat) -> u16
    decreases n,
{
    if n == 0 {
        Pid::NULL
    } else {
        let k = n - 1;
        if be16(s, 4 * k) == 0 {
            pid_at(s, 4 * k + 2)
        } else {
            pat_network_pid(s, k as nat)
        }
    }
}

/// Program association table.
#[derive(Debug, Clone, PartialEq, Eq)]
pub struct Pat {
    /// Transport stream identifier.
    pub transport_stream_id: TransportStreamId,
    /// PID of the network information table.
    pub network_pid: Pid,
    /// Where the program map tables are found.
    pub pmts: Vec<PatProgram>,
}

impl Pat {
    /// The table identifier of the PAT.
    pub const TABLE_ID: u8 = 0x00;
}

impl<'a> PsiTable<'a> for Pat {
    open spec fn spec_readable(psi: PsiSection<'a>) -> bool {
        &&& psi.table_id == 0x00
        &&& psi.syntax matches Some(s) && s.table_id_extension != 0
    }

    open spec fn spec_decodes(psi: PsiSection<'a>, t: Self) -> bool {
        let d = psi.data@;
        &&& t.transport_stream_id@ == psi.syntax.unwrap().table_id_extension
        &&& t.network_pid.0 == pat_network_pid(d, d.len() / 4)
        &&& t.pmts@.map_values(|p: PatProgram| p@) == pat_programs(d, d.len() / 4)
    }

    fn read(psi: &PsiSection<'a>) -> (r: Option<Pat>) {
        if psi.table_id != Self::TABLE_ID {
            return None;
        }
        let syntax = match psi.syntax {
            Some(s) => s,
            None => {
                return None;
            },
        };
        let transport_stream_id = TransportStreamId::new(syntax.table_id_extension)?;
        let data = psi.data;
        let mut network_pid = Pid(Pid::NULL);
        let mut pmts: Vec<PatProgram> = Vec::new();
        let mut pos: usize = 0;
        while data.len() - pos >= 4
            invariant
                pos % 4 == 0,
                pos <= data@.len(),
                network_pid.0 == pat_network_pid(data@, (pos / 4) as nat),
                pmts@.map_values(|p: PatProgram| p@) == pat_programs(data@, (pos / 4) as nat),
            decreases data@.len() - pos,
        {
            let program_number = be16_at(data, pos);
            let pid = Pid::read_at(data, pos + 2);
            let ghost k = (pos / 4) as nat;
            assert(4 * k == pos);
            let ghost before = pmts@.map_values(|p: PatProgram| p@);
            match ServiceId::new(program_number) {
                Some(program_number) => {
                    pmts.push(PatProgram { program_number, program_map_pid: pid });
                    assert(pmts@.map_values(|p: PatProgram| p@) =~= pat_programs(data@, k + 1));
                },
                None => {
                    network_pid = pid;
                },
            }
            pos = pos + 4;
        }
        assert(pos / 4 == data@.len() / 4);
        Some(Pat { transport_stream_id, network_pid, pmts })
    }
}

/// Conditional access table.
#[derive(Debug)]
pub struct Cat<'a> {
    /// Descriptors.
    pub descriptors: DescriptorBlock<'a>,
}

impl<'a> Cat<'a> {
    /// The table identifier of the CAT.
    pub const TABLE_ID: u8 = 0x01;
}

impl<'a> PsiTable<'a> for Cat<'a> {
    open spec fn spec_readable(psi: PsiSection<'a>) -> bool {
        psi.table_id == 0x01
    }

    open spec fn spec_decodes(psi: PsiSection<'a>, t: Self) -> bool {
        t.descriptors@ == psi.data@.subrange(0, (psi.data@.len() as u16) as int)
    }

    fn read(psi: &PsiSection<'a>) -> (r: Option<Cat<'a>>) {
        if psi.table_id != Self::TABLE_ID {
            return None;
        }
        let len = psi.data.len() as u16;
        match DescriptorBlock::read_with_len(psi.data, len) {
            Some((descriptors, _)) => Some(Cat { descriptors }),
            None => None,
        }
    }
}

/// An elementary stream of a program.
#[derive(Debug)]
pub struct PmtStream<'a> {
    /// Stream type.
    pub stream_type: StreamType,
    /// Elementary PID.
    pub elementary_pid: Pid,
    /// Descriptors.
    pub descriptors: DescriptorBlock<'a>,
}

impl<'a> View for PmtStream<'a> {
    type V = (u8, u16, Seq<u8>);

    open spec fn view(&self) -> (u8, u16, Seq<u8>) {
        (self.stream_type.0, self.elementary_pid.0, self.descriptors@)
    }
}

/// The elementary streams coded in `s`, or `None` when `s` is not a sequence
/// of complete ones.
pub open spec fn pmt_streams_of(s: Seq<u8>) -> Option<Seq<(u8, u16, Seq<u8>)>>
    decreases s.len(),
{
    if s.len() == 0 {
        Some(Seq::empty())
    } else if s.len() < 5 || !block_readable(tail(s, 3)) {
        None
    } else {
        match pmt_streams_of(block_rest(tail(s, 3))) {
            Some(rest) => Some(seq![(s[0], pid_at(s, 1), block_bytes(tail(s, 3)))] + rest),
            None => None,
        }
    }
}

/// Program map table.
#[derive(Debug)]
pub struct Pmt<'a> {
    /// Program number.
    pub program_number: ServiceId,
    /// PID of the PCR.
    pub pcr_pid: Pid,
    /// Program descriptors.
    pub descriptors: DescriptorBlock<'a>,
    /// The elementary streams.
    pub streams: Vec<PmtStream<'a>>,
}

impl<'a> Pmt<'a> {
    /// The table identifier of the PMT.
    pub const TABLE_ID: u8 = 0x02;
}

impl<'a> PsiTable<'a> for Pmt<'a> {
    open spec fn spec_readable(psi: PsiSection<'a>) -> bool {
        let d = psi.data@;
        &&& psi.table_id == 0x02
        &&& psi.syntax matches Some(s) && s.table_id_extension != 0
        &&& d.len() >= 4
        &&& block_readable(tail(d, 2))
        &&& pmt_streams_of(block_rest(tail(d, 2))) is Some
    }

    open spec fn spec_decodes(psi: PsiSection<'a>, t: Self) -> bool {
        let d = psi.data@;
        &&& t.program_number@ == psi.syntax.unwrap().table_id_extension
        &&& t.pcr_pid.0 == pid_at(d, 0)
        &&& t.descriptors@ == block_bytes(tail(d, 2))
        &&& pmt_streams_of(block_rest(tail(d, 2))) == Some(
            t.streams@.map_values(|s: PmtStream<'a>| s@),
        )
    }

    fn read(psi: &PsiSection<'a>) -> (r: Option<Pmt<'a>>) {
        if psi.table_id != Self::TABLE_ID {
            return None;
        }
        let syntax = match psi.syntax {
            Some(s) => s,
            None => {
                return None;
            },
        };
        let data = psi.data;
        if data.len() < 4 {
            return None;
        }
        let program_number = ServiceId::new(syntax.table_id_extension)?;
        let pcr_pid = Pid::read_at(data, 0);
        let (descriptors, start) = DescriptorBlock::read(skip(data, 2))?;
        let mut rest = start;
        let mut streams: Vec<PmtStream<'a>> = Vec::new();
        while rest.len() != 0
            invariant
                psi.table_id == 0x02,
                psi.syntax matches Some(s) && s.table_id_extension != 0,
                data@ == psi.data@,
                data@.len() >= 4,
                block_readable(tail(data@, 2)),
                start@ == block_rest(tail(data@, 2)),
                pmt_streams_of(start@) == match pmt_streams_of(rest@) {
                    Some(r) => Some(streams@.map_values(|s: PmtStream<'a>| s@) + r),
                    None => None::<Seq<(u8, u16, Seq<u8>)>>,
                },
            decreases rest@.len(),
        {
            if rest.len() < 5 {
                return None;
            }
            let (block, next) = match DescriptorBlock::read(skip(rest, 3)) {
                Some(p) => p,
                None => {
                    return None;
                },
            };
            let s = PmtStream {
                stream_type: StreamType(rest[0]),
                elementary_pid: Pid::read_at(rest, 1),
                descriptors: block,
            };
            let ghost old_view = streams@.map_values(|s: PmtStream<'a>| s@);
            let ghost head = s@;
            streams.push(s);
            proof {
                assert(streams@.map_values(|s: PmtStream<'a>| s@) =~= old_view.push(head));
                if let Some(r) = pmt_streams_of(next@) {
                    assert(old_view + (seq![head] + r) =~= old_view.push(head) + r);
                }
            }
            rest = next;
        }
        proof {
            assert(streams@.map_values(|s: PmtStream<'a>| s@) + Seq::<(u8, u16, Seq<u8>)>::empty()
                =~= streams@.map_values(|s: PmtStream<'a>| s@));
        }
        Some(Pmt { program_number, pcr_pid, descriptors, streams })
    }
}

/// Whether `s` is a descriptor block followed by a readable transport stream loop.
pub open spec fn ts_loop_readable(s: Seq<u8>) -> bool {
    let r = block_rest(s);
    &&& block_readable(s)
    &&& r.len() >= 2
    &&& r.len() >= 2 + (be16(r, 0) & 0x0FFF)
    &&& ts_configs_of(r.subrange(2, 2 + (be16(r, 0) & 0x0FFF))) is Some
}

/// The transport stream configurations of the loop that follows the descriptor
/// block at the start of `s`.
pub open spec fn ts_loop_configs(s: Seq<u8>) -> Option<Seq<(u16, u16, Seq<u8>)>> {
    let r = block_rest(s);
    ts_configs_of(r.subrange(2, 2 + (be16(r, 0) & 0x0FFF)))
}

/// Reads a descriptor block followed by a transport stream loop.
pub fn read_ts_loop<'a>(data: &'a [u8]) -> (r: Option<(DescriptorBlock<'a>, Vec<TransportStreamConfig<'a>>)>)
    ensures
        r is Some <==> ts_loop_readable(data@),
        r matches Some((b, v)) ==> b@ == block_bytes(data@) && ts_loop_configs(data@) == Some(
            v@.map_values(|c: TransportStreamConfig<'a>| c@),
        ),
{
    let (block, rest) = DescriptorBlock::read(data)?;
    if rest.len() < 2 {
        return None;
    }
    let l = (be16_at(rest, 0) & 0x0FFF) as usize;
    if rest.len() - 2 < l {
        return None;
    }
    let configs = read_ts_configs(&rest[2..2 + l])?;
    Some((block, configs))
}

/// Network information table.
#[derive(Debug)]
pub struct Nit<'a> {
    /// Network identifier.
    pub network_id: NetworkId,
    /// Network descriptors.
    pub network_descriptors: DescriptorBlock<'a>,
    /// The physical configurations of the transport streams.
    pub transport_streams: Vec<TransportStreamConfig<'a>>,
}

impl<'a> Nit<'a> {
    /// The table identifier of the NIT.
    pub const TABLE_ID: u8 = 0x40;
}

impl<'a> PsiTable<'a> for Nit<'a> {
    open spec fn spec_readable(psi: PsiSection<'a>) -> bool {
        &&& psi.table_id == 0x40
        &&& psi.syntax matches Some(s) && s.table_id_extension != 0
        &&& psi.data@.len() >= 2
        &&& ts_loop_readable(psi.data@)
    }

    open spec fn spec_decodes(psi: PsiSection<'a>, t: Self) -> bool {
        &&& t.network_id@ == psi.syntax.unwrap().table_id_extension
        &&& t.network_descriptors@ == block_bytes(psi.data@)
        &&& ts_loop_configs(psi.data@) == Some(
            t.transport_streams@.map_values(|c: TransportStreamConfig<'a>| c@),
        )
    }

    fn read(psi: &PsiSection<'a>) -> (r: Option<Nit<'a>>) {
        if psi.table_id != Self::TABLE_ID {
            return None;
        }
        let syntax = match psi.syntax {
            Some(s) => s,
            None => {
                return None;
            },
        };
        if psi.data.len() < 2 {
            return None;
        }
        let network_id = NetworkId::new(syntax.table_id_extension)?;
        let (network_descriptors, transport_streams) = read_ts_loop(psi.data)?;
        Some(Nit { network_id, network_descriptors, transport_streams })
    }
}

} // verus!
