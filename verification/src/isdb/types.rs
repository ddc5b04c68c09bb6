//! Code types of ARIB STD-B10 that come with named values, gathered from the
//! descriptor modules where they are defined.

pub use crate::isdb::psi::desc::b10::StreamType;
pub use crate::isdb::psi::desc::iso::{Polarization, ServiceType};
