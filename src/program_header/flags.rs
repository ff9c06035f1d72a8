use crate::bytes::{le_bytes, to_le, AsBytes};
use vstd::prelude::*;

verus! {

/// Segment permissions: executable (bit 0), writeable (bit 1) and readable
/// (bit 2).
#[derive(Debug, Clone, Copy, PartialEq, Eq, Structural)]
pub struct Flags {
    pub executable: bool,
    pub writeable: bool,
    pub readable: bool,
}

impl Flags {
    pub open spec fn spec_bits(self) -> u32 {
        ((if self.executable {
            1int
        } else {
            0
        }) + (if self.writeable {
            2int
        } else {
            0
        }) + (if self.readable {
            4int
        } else {
            0
        })) as u32
    }

    /// No permission.
    pub fn empty() -> (r: Self)
        ensures
            r.spec_bits() == 0,
    {
        Flags { executable: false, writeable: false, readable: false }
    }

    /// Every permission.
    pub fn all() -> (r: Self)
        ensures
            r.spec_bits() == 7,
    {
        Flags { executable: true, writeable: true, readable: true }
    }

    pub fn executable() -> (r: Self)
        ensures
            r.spec_bits() == 1,
    {
        Flags { executable: true, writeable: false, readable: false }
    }

    pub fn writeable() -> (r: Self)
        ensures
            r.spec_bits() == 2,
    {
        Flags { executable: false, writeable: true, readable: false }
    }

    pub fn readable() -> (r: Self)
        ensures
            r.spec_bits() == 4,
    {
        Flags { executable: false, writeable: false, readable: true }
    }

    /// The permissions of both.
    pub fn union(self, other: Self) -> (r: Self)
        ensures
            r.executable == (self.executable || other.executable),
            r.writeable == (self.writeable || other.writeable),
            r.readable == (self.readable || other.readable),
    {
        Flags {
            executable: self.executable || other.executable,
            writeable: self.writeable || other.writeable,
            readable: self.readable || other.readable,
        }
    }

    pub fn bits(&self) -> (r: u32)
        ensures
            r == self.spec_bits(),
    {
        let mut bits: u32 = 0;
        if self.executable {
            bits = bits + 1;
        }
        if self.writeable {
            bits = bits + 2;
        }
        if self.readable {
            bits = bits + 4;
        }
        bits
    }
}

impl AsBytes for Flags {
    open spec fn encodable(&self) -> bool {
        true
    }

    open spec fn encoding(&self) -> Seq<u8> {
        le_bytes(self.spec_bits() as int, 4)
    }

    fn as_bytes(&self) -> (r: Vec<u8>) {
        to_le(self.bits() as u64, 4)
    }
}

} // verus!
