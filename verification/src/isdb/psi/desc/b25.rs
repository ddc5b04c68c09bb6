//! Descriptors defined by ARIB STD-B25.

use vstd::prelude::*;

use crate::isdb::psi::table::{NetworkId, TransportStreamId};
use crate::isdb::str::AribStr;
use crate::isdb::utils::{be16, be16_at, skip, tail};

use super::base::Descriptor;
use super::iso::{be16_words, read_be16_words};

verus! {

/// CA EMM TS descriptor.
#[derive(Debug, Clone, PartialEq, Eq)]
pub struct CaEmmTsDescriptor {
    /// Conditional access system identifier.
    pub ca_system_id: u16,
    /// Transport stream identifier.
    pub transport_stream_id: TransportStreamId,
    /// Original network identifier.
    pub original_network_id: NetworkId,
    /// Power supply period, in minutes.
    pub power_supply_period: u8,
}

impl Descriptor<'_> for CaEmmTsDescriptor {
    const TAG: u8 = 0xCA;

    open spec fn spec_readable(data: Seq<u8>) -> bool {
        &&& data.len() == 7
        &&& be16(data, 2) != 0
        &&& be16(data, 4) != 0
    }

    open spec fn spec_decodes(data: Seq<u8>, d: Self) -> bool {
        &&& d.ca_system_id == be16(data, 0)
        &&& d.transport_stream_id@ == be16(data, 2)
        &&& d.original_network_id@ == be16(data, 4)
        &&& d.power_supply_period == data[6]
    }

    fn read(data: &[u8]) -> (r: Option<CaEmmTsDescriptor>) {
        if data.len() != 7 {
            return None;
        }
        let transport_stream_id = TransportStreamId::new(be16_at(data, 2))?;
        let original_network_id = NetworkId::new(be16_at(data, 4))?;
        Some(
            CaEmmTsDescriptor {
                ca_system_id: be16_at(data, 0),
                transport_stream_id,
                original_network_id,
                power_supply_period: data[6],
            },
        )
    }
}

/// CA contract information descriptor.
#[derive(Debug)]
pub struct CaContractInfoDescriptor<'a> {
    /// Conditional access system identifier.
    pub ca_system_id: u16,
    /// Charging unit identifier (4 bits).
    pub ca_unit_id: u8,
    /// Component tags.
    pub component_tag: &'a [u8],
    /// Contract verification information.
    pub contract_verification_info: &'a [u8],
    /// Fee name.
    pub fee_name: AribStr<'a>,
}

/// Where the contract verification information length stands.
pub open spec fn cci_verification_offset(data: Seq<u8>) -> int {
    3 + (data[2] & 0x0F)
}

/// Where the fee name length stands.
pub open spec fn cci_fee_offset(data: Seq<u8>) -> int {
    cci_verification_offset(data) + 1 + data[cci_verification_offset(data)]
}

impl<'a> Descriptor<'a> for CaContractInfoDescriptor<'a> {
    const TAG: u8 = 0xCB;

    open spec fn spec_readable(data: Seq<u8>) -> bool {
        &&& data.len() >= 3
        &&& data.len() >= cci_verification_offset(data) + 1
        &&& data.len() >= cci_fee_offset(data) + 1
        &&& data.len() >= cci_fee_offset(data) + 1 + data[cci_fee_offset(data)]
    }

    open spec fn spec_decodes(data: Seq<u8>, d: Self) -> bool {
        let i = cci_verification_offset(data);
        let j = cci_fee_offset(data);
        &&& d.ca_system_id == be16(data, 0)
        &&& d.ca_unit_id == (data[2] & 0xF0) >> 4
        &&& d.component_tag@ == data.subrange(3, i)
        &&& d.contract_verification_info@ == data.subrange(i + 1, j)
        &&& d.fee_name@ == data.subrange(j + 1, j + 1 + data[j])
    }

    fn read(data: &'a [u8]) -> (r: Option<CaContractInfoDescriptor<'a>>) {
        if data.len() < 3 {
            return None;
        }
        let nc = (data[2] & 0x0F) as usize;
        if data.len() - 3 < nc + 1 {
            return None;
        }
        let i = 3 + nc;
        let vl = data[i] as usize;
        if data.len() - (i + 1) < vl + 1 {
            return None;
        }
        let j = i + 1 + vl;
        let fl = data[j] as usize;
        if data.len() - (j + 1) < fl {
            return None;
        }
        Some(
            CaContractInfoDescriptor {
                ca_system_id: be16_at(data, 0),
                ca_unit_id: (data[2] & 0xF0) >> 4,
                component_tag: &data[3..i],
                contract_verification_info: &data[i + 1..j],
                fee_name: AribStr::from_bytes(&data[j + 1..j + 1 + fl]),
            },
        )
    }
}

/// CA service descriptor.
#[derive(Debug, Clone, PartialEq, Eq)]
pub struct CaServiceDescriptor {
    /// Conditional access system identifier.
    pub ca_system_id: u16,
    /// Broadcaster group identifier.
    pub ca_broadcaster_group_id: u8,
    /// Message control (grace period).
    pub message_control: u8,
    /// Service identifiers.
    pub service_ids: Vec<u16>,
}

impl Descriptor<'_> for CaServiceDescriptor {
    const TAG: u8 = 0xCC;

    open spec fn spec_readable(data: Seq<u8>) -> bool {
        data.len() >= 4
    }

    open spec fn spec_decodes(data: Seq<u8>, d: Self) -> bool {
        &&& d.ca_system_id == be16(data, 0)
        &&& d.ca_broadcaster_group_id == data[2]
        &&& d.message_control == data[3]
        &&& d.service_ids@ == be16_words(tail(data, 4))
    }

    fn read(data: &[u8]) -> (r: Option<CaServiceDescriptor>) {
        if data.len() < 4 {
            return None;
        }
        Some(
            CaServiceDescriptor {
                ca_system_id: be16_at(data, 0),
                ca_broadcaster_group_id: data[2],
                message_control: data[3],
                service_ids: read_be16_words(skip(data, 4)),
            },
        )
    }
}

} // verus!
