//! Verified parsers and small data structures for ISDB transport streams:
//! PSI sections, tables and descriptors, ARIB date/time values, a bit
//! reader, ADTS/MPEG header scanning and a fixed-capacity ring buffer.

pub mod bit;
pub mod codec;
pub mod isdb;
pub mod player;
pub mod ring_buf;
pub mod wide_string;
