//! Descriptors.

pub mod b10;
pub mod b21;
pub mod b25;
pub mod base;
pub mod iso;

pub use base::{Descriptor, DescriptorBlock, DescriptorIter, RawDescriptor};
