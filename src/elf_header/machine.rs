use crate::bytes::AsBytes;
use vstd::prelude::*;

verus! {

/// Instruction set of the target.
#[non_exhaustive]
pub enum Machine {
    /// No particular instruction set.
    NoMachine,
    X86,
    AmdX86_64,
}

impl AsBytes for Machine {
    open spec fn encodable(&self) -> bool {
        true
    }

    open spec fn encoding(&self) -> Seq<u8> {
        match self {
            Machine::NoMachine => seq![0x00u8, 0x00],
            Machine::X86 => seq![0x03u8, 0x00],
            Machine::AmdX86_64 => seq![0x3Eu8, 0x00],
        }
    }

    fn as_bytes(&self) -> (r: Vec<u8>) {
        match self {
            Machine::NoMachine => vec![0x00, 0x00],
            Machine::X86 => vec![0x03, 0x00],
            Machine::AmdX86_64 => vec![0x3E, 0x00],
        }
    }
}

} // verus!
