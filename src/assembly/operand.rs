use super::{Immediate, Memory, Register};
use crate::bytes::AsBytes;
use vstd::prelude::*;

verus! {

/// An instruction operand.
#[derive(Debug, Clone)]
pub enum Operand {
    Mem(Memory),
    /// An immediate value.
    Imm(Immediate),
    Reg(Register),
}

impl Operand {
    /// Whether the operand is one of R8 to R15.
    pub open spec fn is_extended_register(self) -> bool {
        self matches Operand::Reg(r) && r.spec_extended()
    }
}

impl AsBytes for Operand {
    open spec fn encodable(&self) -> bool {
        true
    }

    open spec fn encoding(&self) -> Seq<u8> {
        match self {
            Operand::Mem(m) => m.encoding(),
            Operand::Imm(i) => i.encoding(),
            Operand::Reg(r) => r.encoding(),
        }
    }

    fn as_bytes(&self) -> (r: Vec<u8>) {
        match self {
            Operand::Mem(m) => m.as_bytes(),
            Operand::Imm(i) => i.as_bytes(),
            Operand::Reg(r) => r.as_bytes(),
        }
    }
}

impl From<Memory> for Operand {
    fn from(value: Memory) -> (r: Self) {
        Operand::Mem(value)
    }
}

impl vstd::std_specs::convert::FromSpecImpl<Memory> for Operand {
    open spec fn obeys_from_spec() -> bool {
        true
    }

    open spec fn from_spec(v: Memory) -> Self {
        Operand::Mem(v)
    }
}

impl From<Immediate> for Operand {
    fn from(value: Immediate) -> (r: Self) {
        Operand::Imm(value)
    }
}

impl vstd::std_specs::convert::FromSpecImpl<Immediate> for Operand {
    open spec fn obeys_from_spec() -> bool {
        true
    }

    open spec fn from_spec(v: Immediate) -> Self {
        Operand::Imm(v)
    }
}

impl From<i8> for Operand {
    fn from(value: i8) -> (r: Self) {
        Operand::Imm(Immediate::Imm8(value))
    }
}

impl vstd::std_specs::convert::FromSpecImpl<i8> for Operand {
    open spec fn obeys_from_spec() -> bool {
        true
    }

    open spec fn from_spec(v: i8) -> Self {
        Operand::Imm(Immediate::Imm8(v))
    }
}

impl From<i16> for Operand {
    fn from(value: i16) -> (r: Self) {
        Operand::Imm(Immediate::Imm16(value))
    }
}

impl vstd::std_specs::convert::FromSpecImpl<i16> for Operand {
    open spec fn obeys_from_spec() -> bool {
        true
    }

    open spec fn from_spec(v: i16) -> Self {
        Operand::Imm(Immediate::Imm16(v))
    }
}

impl From<i32> for Operand {
    fn from(value: i32) -> (r: Self) {
        Operand::Imm(Immediate::Imm32(value))
    }
}

impl vstd::std_specs::convert::FromSpecImpl<i32> for Operand {
    open spec fn obeys_from_spec() -> bool {
        true
    }

    open spec fn from_spec(v: i32) -> Self {
        Operand::Imm(Immediate::Imm32(v))
    }
}

impl From<Register> for Operand {
    fn from(value: Register) -> (r: Self) {
        Operand::Reg(value)
    }
}

impl vstd::std_specs::convert::FromSpecImpl<Register> for Operand {
    open spec fn obeys_from_spec() -> bool {
        true
    }

    open spec fn from_spec(v: Register) -> Self {
        Operand::Reg(v)
    }
}

} // verus!
