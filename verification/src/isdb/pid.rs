//! Packet identifiers.

use vstd::prelude::*;

use crate::isdb::utils::{be16, be16_at};

verus! {

/// The 13-bit PID stored in the low bits of the big-endian word at `s[i]`.
pub open spec fn pid_at(s: Seq<u8>, i: int) -> u16 {
    be16(s, i) & 0x1FFF
}

/// A transport stream packet identifier (13 bits).
#[derive(Debug, Clone, Copy, PartialEq, Eq, Structural)]
pub struct Pid(pub u16);

impl Pid {
    /// The value of the null packet PID.
    pub const NULL: u16 = 0x1FFF;

    /// Reads a PID from the 13 low bits of the first two bytes of `data`.
    pub fn read(data: &[u8]) -> (r: Pid)
        requires
            data@.len() >= 2,
        ensures
            r.0 == pid_at(data@, 0),
    {
        Pid(be16_at(data, 0) & 0x1FFF)
    }

    /// Reads a PID from the 13 low bits of the two bytes at offset `i` of `data`.
    pub fn read_at(data: &[u8], i: usize) -> (r: Pid)
        requires
            i + 2 <= data@.len(),
        ensures
            r.0 == pid_at(data@, i as int),
    {
        Pid(be16_at(data, i) & 0x1FFF)
    }

    /// The PID as a primitive value.
    pub fn get(self) -> (r: u16)
        ensures
            r == self.0,
    {
        self.0
    }
}

} // verus!
