//! Per-operation flags of reads and writes.
use vstd::prelude::*;

use crate::aio::{RWF_APPEND, RWF_DSYNC, RWF_HIPRI, RWF_NOWAIT, RWF_SYNC};

verus! {

/// The bits that a write may carry.
pub open spec fn write_mask() -> u32 {
    RWF_APPEND | RWF_DSYNC | RWF_HIPRI | RWF_NOWAIT | RWF_SYNC
}

/// The bits that a read may carry.
pub open spec fn read_mask() -> u32 {
    RWF_HIPRI | RWF_NOWAIT
}

/// Flags of a write: a set of `RWF_*` bits.
#[derive(Clone, Copy, Debug, PartialEq, Eq, Structural)]
pub struct WriteFlags {
    bits: u32,
}

/// Flags of a read: a set of `RWF_*` bits.
#[derive(Clone, Copy, Debug, PartialEq, Eq, Structural)]
pub struct ReadFlags {
    bits: u32,
}

impl WriteFlags {
    pub closed spec fn spec_bits(self) -> u32 {
        self.bits
    }

    /// No flag set.
    pub fn empty() -> (r: WriteFlags)
        ensures
            r.spec_bits() == 0,
    {
        WriteFlags { bits: 0 }
    }

    /// The flags among `bits` that a write knows; the other bits are dropped.
    pub fn from_bits_truncate(bits: u32) -> (r: WriteFlags)
        ensures
            r.spec_bits() == bits & write_mask(),
    {
        WriteFlags { bits: bits & (RWF_APPEND | RWF_DSYNC | RWF_HIPRI | RWF_NOWAIT | RWF_SYNC) }
    }

    pub fn bits(&self) -> (r: u32)
        ensures
            r == self.spec_bits(),
    {
        self.bits
    }

    /// The flags set in either operand.
    pub fn union(self, other: WriteFlags) -> (r: WriteFlags)
        ensures
            r.spec_bits() == self.spec_bits() | other.spec_bits(),
    {
        WriteFlags { bits: self.bits | other.bits }
    }

    /// Whether every flag of `other` is set in `self`.
    pub fn contains(&self, other: WriteFlags) -> (r: bool)
        ensures
            r == (self.spec_bits() & other.spec_bits() == other.spec_bits()),
    {
        self.bits & other.bits == other.bits
    }
}

impl ReadFlags {
    pub closed spec fn spec_bits(self) -> u32 {
        self.bits
    }

    /// No flag set.
    pub fn empty() -> (r: ReadFlags)
        ensures
            r.spec_bits() == 0,
    {
        ReadFlags { bits: 0 }
    }

    /// The flags among `bits` that a read knows; the other bits are dropped.
    pub fn from_bits_truncate(bits: u32) -> (r: ReadFlags)
        ensures
            r.spec_bits() == bits & read_mask(),
    {
        ReadFlags { bits: bits & (RWF_HIPRI | RWF_NOWAIT) }
    }

    pub fn bits(&self) -> (r: u32)
        ensures
            r == self.spec_bits(),
    {
        self.bits
    }

    /// The flags set in either operand.
    pub fn union(self, other: ReadFlags) -> (r: ReadFlags)
        ensures
            r.spec_bits() == self.spec_bits() | other.spec_bits(),
    {
        ReadFlags { bits: self.bits | other.bits }
    }

    /// Whether every flag of `other` is set in `self`.
    pub fn contains(&self, other: ReadFlags) -> (r: bool)
        ensures
            r == (self.spec_bits() & other.spec_bits() == other.spec_bits()),
    {
        self.bits & other.bits == other.bits
    }
}

} // verus!
