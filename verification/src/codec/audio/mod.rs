//! Audio codecs.

pub mod adts;
