//! PSI tables.

pub mod b10;
pub mod b21;
pub mod ids;
pub mod iso;

pub use ids::{EventId, NetworkId, ServiceId, TransportStreamId};
