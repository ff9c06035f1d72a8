use crate::bytes::{le_bytes, to_le_signed, pow256, AsBytes};
use vstd::prelude::*;

verus! {

/// A signed immediate value of an explicit width.
#[derive(Debug, Clone, Copy, PartialEq, Eq, Structural)]
pub enum Immediate {
    Imm8(i8),
    Imm16(i16),
    Imm32(i32),
}

impl Immediate {
    pub open spec fn value(self) -> int {
        match self {
            Immediate::Imm8(n) => n as int,
            Immediate::Imm16(n) => n as int,
            Immediate::Imm32(n) => n as int,
        }
    }

    /// The width in bytes.
    pub open spec fn width(self) -> nat {
        match self {
            Immediate::Imm8(_) => 1,
            Immediate::Imm16(_) => 2,
            Immediate::Imm32(_) => 4,
        }
    }
}

impl AsBytes for Immediate {
    open spec fn encodable(&self) -> bool {
        true
    }

    open spec fn encoding(&self) -> Seq<u8> {
        le_bytes(self.value(), self.width())
    }

    fn as_bytes(&self) -> (r: Vec<u8>) {
        proof {
            reveal_with_fuel(pow256, 5);
        }
        match self {
            Immediate::Imm8(n) => to_le_signed(*n as i64, 1),
            Immediate::Imm16(n) => to_le_signed(*n as i64, 2),
            Immediate::Imm32(n) => to_le_signed(*n as i64, 4),
        }
    }
}

impl From<i8> for Immediate {
    fn from(value: i8) -> (r: Self) {
        Immediate::Imm8(value)
    }
}

impl vstd::std_specs::convert::FromSpecImpl<i8> for Immediate {
    open spec fn obeys_from_spec() -> bool {
        true
    }

    open spec fn from_spec(v: i8) -> Self {
        Immediate::Imm8(v)
    }
}

impl From<i16> for Immediate {
    fn from(value: i16) -> (r: Self) {
        Immediate::Imm16(value)
    }
}

impl vstd::std_specs::convert::FromSpecImpl<i16> for Immediate {
    open spec fn obeys_from_spec() -> bool {
        true
    }

    open spec fn from_spec(v: i16) -> Self {
        Immediate::Imm16(v)
    }
}

impl From<i32> for Immediate {
    fn from(value: i32) -> (r: Self) {
        Immediate::Imm32(value)
    }
}

impl vstd::std_specs::convert::FromSpecImpl<i32> for Immediate {
    open spec fn obeys_from_spec() -> bool {
        true
    }

    open spec fn from_spec(v: i32) -> Self {
        Immediate::Imm32(v)
    }
}

} // verus!
