//! ELF64 program headers, one per loaded segment.

use crate::bytes::{le_bytes, lemma_le_bytes_len, push_le, AsBytes};
use crate::elf_header::VADDR_START;
use vstd::prelude::*;

mod flags;
mod ty;

pub use flags::Flags;
pub use ty::Type;

verus! {

/// An ELF program header.
///
/// See <https://en.wikipedia.org/wiki/Executable_and_Linkable_Format#Program_header>.
pub struct ProgramHeader {
    /// Identifies the type of the segment.
    ty: Type,
    /// Segment permissions.
    flags: Flags,
    /// Offset of the segment in the file image.
    offset: u64,
    /// Virtual address of the segment in memory.
    vaddr: u64,
    /// Physical address, where it matters.
    paddr: u64,
    /// Size in bytes of the segment in the file image.
    filesz: u64,
    /// Size in bytes of the segment in memory.
    memsz: u64,
    /// 0 and 1 mean no alignment.
    align: u64,
}

/// The 56 bytes of a program header: type, flags, offset, virtual and
/// physical address, file and memory size, alignment.
pub open spec fn program_header_bytes(
    ty: u32,
    flags: u32,
    offset: u64,
    vaddr: u64,
    paddr: u64,
    filesz: u64,
    memsz: u64,
    align: u64,
) -> Seq<u8> {
    le_bytes(ty as int, 4) + le_bytes(flags as int, 4) + le_bytes(offset as int, 8) + le_bytes(
        vaddr as int,
        8,
    ) + le_bytes(paddr as int, 8) + le_bytes(filesz as int, 8) + le_bytes(memsz as int, 8)
        + le_bytes(align as int, 8)
}

impl ProgramHeader {
    pub closed spec fn spec_ty(&self) -> Type {
        self.ty
    }

    pub closed spec fn spec_align(&self) -> u64 {
        self.align
    }

    /// A loadable segment with no alignment constraint.
    pub open spec fn loadable(&self) -> bool {
        &&& self.spec_ty() == Type::Load
        &&& self.spec_align() == 0
    }

    pub closed spec fn spec_flags(&self) -> Flags {
        self.flags
    }

    pub closed spec fn spec_offset(&self) -> u64 {
        self.offset
    }

    pub closed spec fn spec_vaddr(&self) -> u64 {
        self.vaddr
    }

    pub closed spec fn spec_paddr(&self) -> u64 {
        self.paddr
    }

    pub closed spec fn spec_filesz(&self) -> u64 {
        self.filesz
    }

    pub closed spec fn spec_memsz(&self) -> u64 {
        self.memsz
    }

    /// A loadable segment that is `filesz` bytes long in the file and in
    /// memory.
    pub open spec fn describes(&self, flags: Flags, offset: int, filesz: int) -> bool {
        &&& self.loadable()
        &&& self.spec_flags() == flags
        &&& self.spec_offset() == offset
        &&& self.spec_vaddr() == VADDR_START + offset
        &&& self.spec_paddr() == self.spec_vaddr()
        &&& self.spec_filesz() == filesz
        &&& self.spec_memsz() == filesz
    }

    /// A loadable segment for `data`, at offset and address 0 until placed.
    pub fn from_data(data: &[u8], flags: Flags) -> (r: Self)
        ensures
            r.loadable(),
            r.spec_flags() == flags,
            r.spec_offset() == 0,
            r.spec_vaddr() == 0,
            r.spec_paddr() == 0,
            r.spec_filesz() == data@.len(),
            r.spec_memsz() == data@.len(),
    {
        let size = data.len() as u64;
        let mut header = ProgramHeader::default();
        header.flags = flags;
        header.filesz = size;
        header.memsz = size;
        header
    }

    /// Sets the virtual and the physical address.
    pub fn set_addr(&mut self, addr: u64)
        ensures
            final(self).spec_vaddr() == addr,
            final(self).spec_paddr() == addr,
            final(self).spec_ty() == old(self).spec_ty(),
            final(self).spec_align() == old(self).spec_align(),
            final(self).spec_flags() == old(self).spec_flags(),
            final(self).spec_offset() == old(self).spec_offset(),
            final(self).spec_filesz() == old(self).spec_filesz(),
            final(self).spec_memsz() == old(self).spec_memsz(),
    {
        self.vaddr = addr;
        self.paddr = addr;
    }

    pub fn set_offset(&mut self, offset: u64)
        ensures
            final(self).spec_offset() == offset,
            final(self).spec_ty() == old(self).spec_ty(),
            final(self).spec_align() == old(self).spec_align(),
            final(self).spec_flags() == old(self).spec_flags(),
            final(self).spec_vaddr() == old(self).spec_vaddr(),
            final(self).spec_paddr() == old(self).spec_paddr(),
            final(self).spec_filesz() == old(self).spec_filesz(),
            final(self).spec_memsz() == old(self).spec_memsz(),
    {
        self.offset = offset;
    }

    /// The serialized header is 56 bytes long: the type, the flags at byte
    /// 4, then offset, virtual and physical address, file and memory size,
    /// and the alignment at byte 48.
    pub proof fn lemma_size(&self)
        ensures
            self.encoding().len() == 0x38,
            self.encoding().subrange(0, 4) == le_bytes(self.spec_ty().code() as int, 4),
            self.encoding().subrange(4, 8) == le_bytes(self.spec_flags().spec_bits() as int, 4),
            self.encoding().subrange(8, 16) == le_bytes(self.spec_offset() as int, 8),
            self.encoding().subrange(16, 24) == le_bytes(self.spec_vaddr() as int, 8),
            self.encoding().subrange(24, 32) == le_bytes(self.spec_paddr() as int, 8),
            self.encoding().subrange(32, 40) == le_bytes(self.spec_filesz() as int, 8),
            self.encoding().subrange(40, 48) == le_bytes(self.spec_memsz() as int, 8),
            self.encoding().subrange(48, 56) == le_bytes(self.spec_align() as int, 8),
    {
        lemma_le_bytes_len(self.ty.code() as int, 4);
        lemma_le_bytes_len(self.flags.spec_bits() as int, 4);
        lemma_le_bytes_len(self.offset as int, 8);
        lemma_le_bytes_len(self.vaddr as int, 8);
        lemma_le_bytes_len(self.paddr as int, 8);
        lemma_le_bytes_len(self.filesz as int, 8);
        lemma_le_bytes_len(self.memsz as int, 8);
        lemma_le_bytes_len(self.align as int, 8);
        let e = self.encoding();
        assert(e.subrange(0, 4) =~= le_bytes(self.ty.code() as int, 4));
        assert(e.subrange(48, 56) =~= le_bytes(self.align as int, 8));
        assert(e.subrange(4, 8) =~= le_bytes(self.flags.spec_bits() as int, 4));
        assert(e.subrange(8, 16) =~= le_bytes(self.offset as int, 8));
        assert(e.subrange(16, 24) =~= le_bytes(self.vaddr as int, 8));
        assert(e.subrange(24, 32) =~= le_bytes(self.paddr as int, 8));
        assert(e.subrange(32, 40) =~= le_bytes(self.filesz as int, 8));
        assert(e.subrange(40, 48) =~= le_bytes(self.memsz as int, 8));
    }
}

impl Default for ProgramHeader {
    /// An empty loadable segment with no permission.
    fn default() -> (r: Self)
        ensures
            r.loadable(),
            r.spec_flags() == (Flags { executable: false, writeable: false, readable: false }),
            r.spec_offset() == 0,
            r.spec_vaddr() == 0,
            r.spec_paddr() == 0,
            r.spec_filesz() == 0,
            r.spec_memsz() == 0,
    {
        ProgramHeader {
            ty: Type::Load,
            flags: Flags::empty(),
            offset: 0,
            vaddr: 0,
            paddr: 0,
            filesz: 0,
            memsz: 0,
            align: 0,
        }
    }
}

impl AsBytes for ProgramHeader {
    open spec fn encodable(&self) -> bool {
        true
    }

    open spec fn encoding(&self) -> Seq<u8> {
        program_header_bytes(
            self.spec_ty().code(),
            self.spec_flags().spec_bits(),
            self.spec_offset(),
            self.spec_vaddr(),
            self.spec_paddr(),
            self.spec_filesz(),
            self.spec_memsz(),
            self.spec_align(),
        )
    }

    fn as_bytes(&self) -> (r: Vec<u8>)
        ensures
            r@.len() == 0x38,
            r@.subrange(0, 4) == le_bytes(self.spec_ty().code() as int, 4),
            r@.subrange(4, 8) == le_bytes(self.spec_flags().spec_bits() as int, 4),
            r@.subrange(8, 16) == le_bytes(self.spec_offset() as int, 8),
            r@.subrange(16, 24) == le_bytes(self.spec_vaddr() as int, 8),
            r@.subrange(24, 32) == le_bytes(self.spec_paddr() as int, 8),
            r@.subrange(32, 40) == le_bytes(self.spec_filesz() as int, 8),
            r@.subrange(40, 48) == le_bytes(self.spec_memsz() as int, 8),
            r@.subrange(48, 56) == le_bytes(self.spec_align() as int, 8),
            self.loadable() ==> r@.subrange(0, 4) == le_bytes(1, 4) && r@.subrange(48, 56)
                == le_bytes(0, 8),
    {
        proof {
            self.lemma_size();
        }
        let mut data = self.ty.as_bytes();
        data.append(&mut self.flags.as_bytes());
        push_le(&mut data, self.offset, 8);
        push_le(&mut data, self.vaddr, 8);
        push_le(&mut data, self.paddr, 8);
        push_le(&mut data, self.filesz, 8);
        push_le(&mut data, self.memsz, 8);
        push_le(&mut data, self.align, 8);
        data
    }
}

} // verus!
