//! The ELF64 file header.

use self::{class::Class, endianness::Endianness, machine::Machine, os_abi::OsAbi, ty::Type};
use crate::bytes::{le_bytes, lemma_le_bytes_len, push_le, AsBytes};
use vstd::prelude::*;

pub mod class;
pub mod endianness;
pub mod machine;
pub mod os_abi;
pub mod ty;

verus! {

/// The 64 bytes of a header with its fixed values, the entry point `entry`
/// and `phnum` program headers.
pub open spec fn header_bytes(entry: u64, phnum: u16) -> Seq<u8> {
    seq![
        0x7Fu8, 0x45, 0x4C, 0x46, 2, 1, 1, 0, 0, 0, 0, 0, 0, 0, 0, 0, 2, 0, 0x3E, 0, 1, 0, 0, 0,
    ] + le_bytes(entry as int, 8) + le_bytes(0x40, 8) + le_bytes(0, 12) + seq![0x40u8, 0, 0x38, 0]
        + le_bytes(phnum as int, 2) + le_bytes(0, 6)
}

/// Virtual address at which the image is loaded.
pub const VADDR_START: u64 = 0x400000;

/// Size of the ELF header.
pub const ELF_HEADER_SIZE: u64 = 0x40;

/// Size of one program header.
pub const PROGRAM_HEADER_SIZE: u64 = 0x38;

/// The ELF64 file header of an x86-64 System V executable.
///
/// See <https://en.wikipedia.org/wiki/Executable_and_Linkable_Format>.
pub struct ElfHeader {
    class: Class,
    data: Endianness,
    elf_version: u8,
    os_abi: OsAbi,
    abi_version: u8,
    ty: Type,
    machine: Machine,
    version: u32,
    entry: u64,
    phoff: u64,
    shoff: u64,
    flags: u32,
    ehsize: u16,
    phentsize: u16,
    phnum: u16,
    shentsize: u16,
    shnum: u16,
    shstrndx: u16,
}

impl ElfHeader {
    pub closed spec fn spec_entry(&self) -> u64 {
        self.entry
    }

    /// The number of program headers.
    pub closed spec fn spec_phnum(&self) -> u16 {
        self.phnum
    }

    /// Every field but the entry point and the number of program headers
    /// holds its fixed value: a 64-bit little-endian System V executable for
    /// x86-64, ELF version 1, program headers at 0x40, no section headers.
    pub closed spec fn fixed(&self) -> bool {
        &&& self.class is Bits64
        &&& self.data is LittleEndian
        &&& self.elf_version == 1
        &&& self.os_abi is SystemV
        &&& self.abi_version == 0
        &&& self.ty is Executable
        &&& self.machine is AmdX86_64
        &&& self.version == 1
        &&& self.phoff == ELF_HEADER_SIZE
        &&& self.shoff == 0
        &&& self.flags == 0
        &&& self.ehsize == ELF_HEADER_SIZE
        &&& self.phentsize == PROGRAM_HEADER_SIZE
        &&& self.shentsize == 0
        &&& self.shnum == 0
        &&& self.shstrndx == 0
    }

    /// The fields hold their fixed values, and the entry point lies just
    /// past the header and the program headers.
    pub open spec fn wf(&self) -> bool {
        &&& self.fixed()
        &&& self.spec_entry() == VADDR_START + ELF_HEADER_SIZE + self.spec_phnum()
            * PROGRAM_HEADER_SIZE
    }

    /// Counts one more program header; the entry point moves past it.
    pub fn increment_pheader(&mut self)
        requires
            old(self).wf(),
            old(self).spec_phnum() < u16::MAX,
        ensures
            final(self).wf(),
            final(self).fixed(),
            final(self).spec_phnum() == old(self).spec_phnum() + 1,
            final(self).spec_entry() == old(self).spec_entry() + PROGRAM_HEADER_SIZE,
    {
        self.phnum = self.phnum + 1;
        self.entry = self.entry + PROGRAM_HEADER_SIZE;
    }

    /// The entry point address of the image.
    pub fn entry(&self) -> (r: u64)
        ensures
            r == self.spec_entry(),
    {
        self.entry
    }

    pub fn phnum(&self) -> (r: u16)
        ensures
            r == self.spec_phnum(),
    {
        self.phnum
    }

    /// A header with its fixed values serializes as `header_bytes`.
    pub proof fn lemma_fixed_bytes(&self)
        ensures
            self.fixed() ==> self.encoding() == header_bytes(self.spec_entry(), self.spec_phnum()),
    {
        if self.fixed() {
            reveal_with_fuel(le_bytes, 13);
            assert(le_bytes(1, 1) =~= seq![1u8]);
            assert(le_bytes(0, 1) =~= seq![0u8]);
            assert(le_bytes(0, 7) =~= seq![0u8, 0, 0, 0, 0, 0, 0]);
            assert(le_bytes(1, 4) =~= seq![1u8, 0, 0, 0]);
            assert(le_bytes(0, 8) + le_bytes(0, 4) =~= le_bytes(0, 12));
            assert(le_bytes(0x40, 2) =~= seq![0x40u8, 0]);
            assert(le_bytes(0x38, 2) =~= seq![0x38u8, 0]);
            assert(le_bytes(0, 2) + le_bytes(0, 2) + le_bytes(0, 2) =~= le_bytes(0, 6));
            assert(self.encoding() =~= header_bytes(self.spec_entry(), self.spec_phnum()));
        }
    }

    /// The serialized header is 64 bytes long; it starts with the ELF
    /// magic, and holds the entry point at byte 24 and the number of program
    /// headers at byte 56.
    pub proof fn lemma_size(&self)
        ensures
            self.encoding().len() == ELF_HEADER_SIZE,
            self.encoding().subrange(0, 4) == seq![0x7Fu8, 0x45, 0x4C, 0x46],
            self.encoding().subrange(24, 32) == le_bytes(self.spec_entry() as int, 8),
            self.encoding().subrange(56, 58) == le_bytes(self.spec_phnum() as int, 2),
    {
        lemma_le_bytes_len(self.elf_version as int, 1);
        lemma_le_bytes_len(self.abi_version as int, 1);
        lemma_le_bytes_len(0, 7);
        lemma_le_bytes_len(self.version as int, 4);
        lemma_le_bytes_len(self.entry as int, 8);
        lemma_le_bytes_len(self.phoff as int, 8);
        lemma_le_bytes_len(self.shoff as int, 8);
        lemma_le_bytes_len(self.flags as int, 4);
        lemma_le_bytes_len(self.ehsize as int, 2);
        lemma_le_bytes_len(self.phentsize as int, 2);
        lemma_le_bytes_len(self.phnum as int, 2);
        lemma_le_bytes_len(self.shentsize as int, 2);
        lemma_le_bytes_len(self.shnum as int, 2);
        lemma_le_bytes_len(self.shstrndx as int, 2);
        let e = self.encoding();
        assert(e.subrange(0, 4) =~= seq![0x7Fu8, 0x45, 0x4C, 0x46]);
        assert(e.subrange(24, 32) =~= le_bytes(self.entry as int, 8));
        assert(e.subrange(56, 58) =~= le_bytes(self.phnum as int, 2));
    }
}

impl Default for ElfHeader {
    /// A header with no program header yet; its entry point lies just past
    /// itself.
    fn default() -> (r: Self)
        ensures
            r.wf(),
            r.fixed(),
            r.spec_phnum() == 0,
            r.spec_entry() == VADDR_START + ELF_HEADER_SIZE,
    {
        ElfHeader {
            class: Class::Bits64,
            data: Endianness::LittleEndian,
            elf_version: 1,
            os_abi: OsAbi::SystemV,
            abi_version: 0,
            ty: Type::Executable,
            machine: Machine::AmdX86_64,
            version: 1,
            entry: VADDR_START + ELF_HEADER_SIZE,
            phoff: ELF_HEADER_SIZE,
            shoff: 0,
            flags: 0,
            ehsize: 0x40,
            phentsize: 0x38,
            phnum: 0,
            shentsize: 0,
            shnum: 0,
            shstrndx: 0,
        }
    }
}

impl AsBytes for ElfHeader {
    open spec fn encodable(&self) -> bool {
        true
    }

    closed spec fn encoding(&self) -> Seq<u8> {
        seq![0x7Fu8, 0x45, 0x4C, 0x46] + self.class.encoding() + self.data.encoding() + le_bytes(
            self.elf_version as int,
            1,
        ) + self.os_abi.encoding() + le_bytes(self.abi_version as int, 1) + le_bytes(0, 7)
            + self.ty.encoding() + self.machine.encoding() + le_bytes(self.version as int, 4)
            + le_bytes(self.entry as int, 8) + le_bytes(self.phoff as int, 8) + le_bytes(
            self.shoff as int,
            8,
        ) + le_bytes(self.flags as int, 4) + le_bytes(self.ehsize as int, 2) + le_bytes(
            self.phentsize as int,
            2,
        ) + le_bytes(self.phnum as int, 2) + le_bytes(self.shentsize as int, 2) + le_bytes(
            self.shnum as int,
            2,
        ) + le_bytes(self.shstrndx as int, 2)
    }

    fn as_bytes(&self) -> (r: Vec<u8>)
        ensures
            r@.len() == ELF_HEADER_SIZE,
            r@.subrange(0, 4) == seq![0x7Fu8, 0x45, 0x4C, 0x46],
            r@.subrange(24, 32) == le_bytes(self.spec_entry() as int, 8),
            r@.subrange(56, 58) == le_bytes(self.spec_phnum() as int, 2),
            self.fixed() ==> r@ == header_bytes(self.spec_entry(), self.spec_phnum()),
    {
        proof {
            self.lemma_size();
            self.lemma_fixed_bytes();
        }
        let mut data: Vec<u8> = vec![0x7F, 0x45, 0x4C, 0x46];
        data.append(&mut self.class.as_bytes());
        data.append(&mut self.data.as_bytes());
        push_le(&mut data, self.elf_version as u64, 1);
        data.append(&mut self.os_abi.as_bytes());
        push_le(&mut data, self.abi_version as u64, 1);
        push_le(&mut data, 0, 7);
        data.append(&mut self.ty.as_bytes());
        data.append(&mut self.machine.as_bytes());
        push_le(&mut data, self.version as u64, 4);
        push_le(&mut data, self.entry, 8);
        push_le(&mut data, self.phoff, 8);
        push_le(&mut data, self.shoff, 8);
        push_le(&mut data, self.flags as u64, 4);
        push_le(&mut data, self.ehsize as u64, 2);
        push_le(&mut data, self.phentsize as u64, 2);
        push_le(&mut data, self.phnum as u64, 2);
        push_le(&mut data, self.shentsize as u64, 2);
        push_le(&mut data, self.shnum as u64, 2);
        push_le(&mut data, self.shstrndx as u64, 2);
        data
    }
}

} // verus!
