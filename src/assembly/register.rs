use crate::bytes::AsBytes;
use vstd::prelude::*;

verus! {

/// The sixteen general-purpose 64-bit registers.
#[derive(Debug, Clone, Copy, PartialEq, Eq, Structural)]
pub enum Register {
    /// Primary accumulator; on Linux also the syscall number and return value.
    Rax,
    /// Counter register.
    Rcx,
    /// Data register; on Linux also the third syscall parameter.
    Rdx,
    /// Base register.
    Rbx,
    /// Stack pointer.
    Rsp,
    /// Base pointer.
    Rbp,
    /// Source index; on Linux also the second syscall parameter.
    Rsi,
    /// Destination index; on Linux also the first syscall parameter.
    Rdi,
    R8,
    R9,
    R10,
    R11,
    R12,
    R13,
    R14,
    R15,
}

impl Register {
    /// The low three bits that identify the register in ModR/M and opcode forms.
    pub open spec fn spec_field(self) -> u8 {
        match self {
            Register::Rax | Register::R8 => 0,
            Register::Rcx | Register::R9 => 1,
            Register::Rdx | Register::R10 => 2,
            Register::Rbx | Register::R11 => 3,
            Register::Rsp | Register::R12 => 4,
            Register::Rbp | Register::R13 => 5,
            Register::Rsi | Register::R14 => 6,
            Register::Rdi | Register::R15 => 7,
        }
    }

    /// Whether the register needs the REX.B or REX.R extension bit.
    pub open spec fn spec_extended(self) -> bool {
        match self {
            Register::R8 | Register::R9 | Register::R10 | Register::R11 | Register::R12
            | Register::R13 | Register::R14 | Register::R15 => true,
            _ => false,
        }
    }

    /// The register-direct ModR/M byte naming this register in the r/m field.
    pub open spec fn canonical_byte(self) -> u8 {
        (0xC0 + self.spec_field()) as u8
    }

    /// The canonical byte with `k` placed in the ModR/M reg field.
    pub open spec fn opcode_extend(self, k: u8) -> u8 {
        (self.canonical_byte() + k * 8) as u8
    }

    pub fn field(&self) -> (r: u8)
        ensures
            r == self.spec_field(),
            r < 8,
    {
        match self {
            Register::Rax | Register::R8 => 0,
            Register::Rcx | Register::R9 => 1,
            Register::Rdx | Register::R10 => 2,
            Register::Rbx | Register::R11 => 3,
            Register::Rsp | Register::R12 => 4,
            Register::Rbp | Register::R13 => 5,
            Register::Rsi | Register::R14 => 6,
            Register::Rdi | Register::R15 => 7,
        }
    }

    pub fn is_extended(&self) -> (r: bool)
        ensures
            r == self.spec_extended(),
    {
        match self {
            Register::R8 | Register::R9 | Register::R10 | Register::R11 | Register::R12
            | Register::R13 | Register::R14 | Register::R15 => true,
            _ => false,
        }
    }

    /// The canonical byte with `op`, an opcode extension digit or another
    /// register's field, in the ModR/M reg field.
    pub fn as_bytes_opcode_extend(&self, op: u8) -> (r: Vec<u8>)
        requires
            op < 8,
        ensures
            r@ == seq![self.opcode_extend(op)],
            r@[0] == 0xC0 + self.spec_field() + op * 8,
    {
        let byte = 0xC0 + self.field() + op * 8;
        vec![byte]
    }
}

impl AsBytes for Register {
    open spec fn encodable(&self) -> bool {
        true
    }

    open spec fn encoding(&self) -> Seq<u8> {
        seq![self.canonical_byte()]
    }

    /// One byte, `0xC0` plus the register's field: R8 to R15 share the
    /// fields of RAX to RDI and differ only by the extension bit.
    fn as_bytes(&self) -> (r: Vec<u8>)
        ensures
            r@.len() == 1,
            r@[0] == 0xC0 + self.spec_field(),
            self.spec_field() < 8,
    {
        let byte: u8 = match self {
            Register::Rax | Register::R8 => 0xC0,
            Register::Rcx | Register::R9 => 0xC1,
            Register::Rdx | Register::R10 => 0xC2,
            Register::Rbx | Register::R11 => 0xC3,
            Register::Rsp | Register::R12 => 0xC4,
            Register::Rbp | Register::R13 => 0xC5,
            Register::Rsi | Register::R14 => 0xC6,
            Register::Rdi | Register::R15 => 0xC7,
        };
        vec![byte]
    }
}

} // verus!
