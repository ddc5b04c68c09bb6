//! Video codecs.

pub mod mpeg;
