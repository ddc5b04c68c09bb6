//! ISDB (ARIB) transport stream structures.

pub mod crc;
pub mod lang;
pub mod pid;
pub mod psi;
pub mod str;
pub mod time;
pub mod types;
pub mod utils;
