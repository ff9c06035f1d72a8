//! Composes an executable image from a program and data blobs.

use crate::assembly::{
    all_supported, code_bytes, code_size, data_len, lemma_resolved_same_sizes, AsmError, Program,
};
use crate::bytes::AsBytes;
use crate::elf_header::{
    header_bytes, ElfHeader, ELF_HEADER_SIZE, PROGRAM_HEADER_SIZE, VADDR_START,
};
use crate::program_header::{Flags, ProgramHeader};
use vstd::prelude::*;

verus! {

/// The sum of a sequence of sizes.
pub open spec fn sum(sizes: Seq<int>) -> int
    decreases sizes.len(),
{
    if sizes.len() == 0 {
        0
    } else {
        sum(sizes.drop_last()) + sizes.last()
    }
}

/// The file sizes of the segments, added up.
pub open spec fn filesz_sum(headers: Seq<ProgramHeader>) -> int
    decreases headers.len(),
{
    if headers.len() == 0 {
        0
    } else {
        filesz_sum(headers.drop_last()) + headers.last().spec_filesz()
    }
}

/// Byte sequences, concatenated.
pub open spec fn concat_all(parts: Seq<Seq<u8>>) -> Seq<u8>
    decreases parts.len(),
{
    if parts.len() == 0 {
        Seq::empty()
    } else {
        concat_all(parts.drop_last()) + parts.last()
    }
}

/// Program headers, serialized one after the other.
pub open spec fn headers_bytes(headers: Seq<ProgramHeader>) -> Seq<u8>
    decreases headers.len(),
{
    if headers.len() == 0 {
        Seq::empty()
    } else {
        headers_bytes(headers.drop_last()) + headers.last().encoding()
    }
}

/// The permissions of the code segment.
pub open spec fn code_flags() -> Flags {
    Flags { executable: true, writeable: false, readable: true }
}

/// An ELF image: the header, a program header for the code and one for
/// each data blob, the code, then the data blobs.
pub struct Elf {
    elf_header: ElfHeader,
    program_header: ProgramHeader,
    program: Program,
    headers: Vec<ProgramHeader>,
    datas: Vec<Vec<u8>>,
}

impl Elf {
    pub closed spec fn header(&self) -> ElfHeader {
        self.elf_header
    }

    pub closed spec fn code_header(&self) -> ProgramHeader {
        self.program_header
    }

    pub closed spec fn program(&self) -> Program {
        self.program
    }

    pub closed spec fn data_headers(&self) -> Seq<ProgramHeader> {
        self.headers@
    }

    /// The bytes of the data blobs, in the order they were added.
    pub closed spec fn blobs(&self) -> Seq<Seq<u8>> {
        self.datas@.map_values(|d: Vec<u8>| d@)
    }

    /// The program headers: the code's first, then one per data blob.
    pub open spec fn segments(&self) -> Seq<ProgramHeader> {
        seq![self.code_header()] + self.data_headers()
    }

    /// The size of each segment, the code's first.
    pub open spec fn segment_sizes(&self) -> Seq<int> {
        seq![code_size(self.program().instructions@)] + self.blobs().map_values(
            |b: Seq<u8>| b.len() as int,
        )
    }

    /// Size of the ELF header and of all program headers.
    pub open spec fn headers_len(&self) -> int {
        ELF_HEADER_SIZE + self.segments().len() * PROGRAM_HEADER_SIZE
    }

    pub open spec fn image_len(&self) -> int {
        self.headers_len() + sum(self.segment_sizes())
    }

    /// The address at which the first data byte is loaded: past the headers
    /// and the code.
    pub open spec fn data_addr(&self) -> int {
        VADDR_START + self.headers_len() + code_size(self.program().instructions@)
    }

    /// Every segment lies right after the ones before it, at `VADDR_START`
    /// plus its offset; the header counts all segments.
    pub open spec fn wf(&self) -> bool {
        &&& self.header().wf()
        &&& self.header().spec_phnum() == self.segments().len()
        &&& self.blobs().len() == self.data_headers().len()
        &&& all_supported(self.program().instructions@)
        &&& self.code_header().spec_flags() == code_flags()
        &&& forall|i: int|
            0 <= i < self.segments().len() ==> #[trigger] self.segments()[i].describes(
                self.segments()[i].spec_flags(),
                sum(self.segment_sizes().take(i)),
                self.segment_sizes()[i],
            )
        &&& VADDR_START + self.image_len() <= i32::MAX
    }

    /// Creates an image for a program, with its code segment readable and
    /// executable.
    pub fn new(program: Program) -> (r: Self)
        requires
            all_supported(program.instructions@),
            VADDR_START + ELF_HEADER_SIZE + PROGRAM_HEADER_SIZE + code_size(program.instructions@)
                <= i32::MAX,
        ensures
            r.wf(),
            r.program() == program,
            r.blobs().len() == 0,
            r.data_headers().len() == 0,
            r.header().spec_phnum() == 1,
            r.header().spec_entry() == VADDR_START + ELF_HEADER_SIZE + PROGRAM_HEADER_SIZE,
            r.code_header().describes(code_flags(), 0, code_size(program.instructions@)),
    {
        let code = program.as_bytes();
        let mut header = ProgramHeader::from_data(
            code.as_slice(),
            Flags::executable().union(Flags::readable()),
        );
        header.set_addr(VADDR_START);
        let mut elf_header = ElfHeader::default();
        elf_header.increment_pheader();
        let r = Elf { elf_header, program_header: header, program, headers: Vec::new(), datas: Vec::new() };
        proof {
            assert(r.segments() =~= seq![header]);
            assert(r.blobs() =~= Seq::<Seq<u8>>::empty());
            assert(r.segment_sizes() =~= seq![code_size(program.instructions@)]);
            assert(r.segment_sizes().take(0) =~= Seq::<int>::empty());
            assert(r.segment_sizes().drop_last() =~= Seq::<int>::empty());
            assert(r.segment_sizes()[0] == code_size(program.instructions@));
            assert(sum(Seq::<int>::empty()) == 0);
            assert(sum(r.segment_sizes()) == code_size(program.instructions@));
            assert(r.segments()[0] == header);
            assert(r.segments()[0].describes(code_flags(), 0, r.segment_sizes()[0]));
        }
        r
    }

    /// The total size of the segments.
    fn segments_len(&self) -> (r: usize)
        requires
            self.wf(),
        ensures
            r == sum(self.segment_sizes()),
    {
        let ghost sizes = self.segment_sizes();
        let mut total: usize = self.program.as_bytes().len();
        let mut i: usize = 0;
        proof {
            assert(sizes.take(1).drop_last() =~= Seq::<int>::empty());
            assert(sizes[0] == code_size(self.program().instructions@));
            assert(sum(Seq::<int>::empty()) == 0);
            assert(sum(sizes.take(1)) == sizes[0]);
        }
        while i < self.datas.len()
            invariant
                self.wf(),
                sizes == self.segment_sizes(),
                i <= self.datas@.len(),
                total == sum(sizes.take(i + 1)),
            decreases self.datas@.len() - i,
        {
            proof {
                lemma_sum_prefix(sizes, i + 2);
                assert(sizes.take(i + 2).drop_last() =~= sizes.take(i + 1));
            }
            total = total + self.datas[i].len();
            i = i + 1;
        }
        assert(sizes.take(i + 1) =~= sizes);
        total
    }

    /// Adds a data blob as a segment of its own, placed right after the
    /// segments before it.
    pub fn add_data<D: AsBytes + ?Sized>(&mut self, data: &D, flags: Flags)
        requires
            old(self).wf(),
            old(self).segments().len() < u16::MAX,
            data.encodable(),
            VADDR_START + old(self).image_len() + PROGRAM_HEADER_SIZE + data.encoding().len()
                <= i32::MAX,
        ensures
            final(self).wf(),
            final(self).program() == old(self).program(),
            final(self).blobs() == old(self).blobs().push(data.encoding()),
            final(self).code_header() == old(self).code_header(),
            final(self).data_headers().len() == old(self).data_headers().len() + 1,
            final(self).data_headers().drop_last() == old(self).data_headers(),
            final(self).header().spec_phnum() == old(self).header().spec_phnum() + 1,
            final(self).header().spec_entry() == old(self).header().spec_entry()
                + PROGRAM_HEADER_SIZE,
            final(self).data_headers().last().describes(
                flags,
                filesz_sum(old(self).segments()),
                data.encoding().len() as int,
            ),
    {
        let bytes = data.as_bytes();
        let previous = self.segments_len();
        self.elf_header.increment_pheader();
        let mut header = ProgramHeader::from_data(bytes.as_slice(), flags);
        header.set_offset(previous as u64);
        header.set_addr(VADDR_START + previous as u64);
        let ghost old_sizes = old(self).segment_sizes();
        self.headers.push(header);
        self.datas.push(bytes);
        proof {
            let sizes = self.segment_sizes();
            lemma_filesz_sum(old(self), old(self).segments().len() as int);
            assert(old(self).segments().take(old(self).segments().len() as int) =~= old(
                self,
            ).segments());
            assert(old_sizes.take(old_sizes.len() as int) =~= old_sizes);
            assert(self.data_headers().drop_last() =~= old(self).data_headers());
            assert(self.blobs() =~= old(self).blobs().push(data.encoding()));
            assert(sizes =~= old_sizes.push(data.encoding().len() as int));
            assert(self.segments() =~= old(self).segments().push(header));
            assert(sizes.take(sizes.len() - 1) =~= old_sizes);
            assert forall|i: int| 0 <= i < old_sizes.len() implies #[trigger] sizes.take(i)
                == old_sizes.take(i) by {
                assert(sizes.take(i) =~= old_sizes.take(i));
            }
            assert forall|i: int| 0 <= i < self.segments().len() implies #[trigger] self.segments()[
                i
            ].describes(
                self.segments()[i].spec_flags(),
                sum(self.segment_sizes().take(i)),
                self.segment_sizes()[i],
            ) by {
                if i < old_sizes.len() {
                    assert(old(self).segments()[i].describes(
                        old(self).segments()[i].spec_flags(),
                        sum(old_sizes.take(i)),
                        old_sizes[i],
                    ));
                }
            }
        }
    }

    /// Size of all the headers in the file.
    fn len_headers(&self) -> (r: usize)
        requires
            self.wf(),
        ensures
            r == self.headers_len(),
            r == self.header().spec_entry() - VADDR_START,
    {
        let count = self.elf_header.phnum() as usize;
        ELF_HEADER_SIZE as usize + count * PROGRAM_HEADER_SIZE as usize
    }

    /// The size of the whole image.
    pub fn len(&self) -> (r: usize)
        requires
            self.wf(),
        ensures
            r == self.image_len(),
    {
        proof {
            lemma_sum_nonneg(self.segment_sizes());
        }
        self.len_headers() + self.segments_len()
    }

    /// Back-patches the program: branches to labels, and `MOV r, mem` to
    /// data entries laid out from the address just past the code.
    pub fn backpatch(&mut self) -> (r: Result<(), AsmError>)
        requires
            old(self).wf(),
            old(self).data_addr() + data_len(old(self).program().data.entries()) <= i32::MAX,
        ensures
            final(self).wf(),
            final(self).header() == old(self).header(),
            final(self).segments() == old(self).segments(),
            final(self).blobs() == old(self).blobs(),
            final(self).program().data == old(self).program().data,
            final(self).program().instructions@.len() == old(self).program().instructions@.len(),
            r is Ok <==> old(self).program().resolvable(old(self).data_addr()),
            !old(self).program().resolvable(old(self).data_addr()) ==> r matches Err(
                AsmError::UnresolvedLabel(_),
            ),
            r is Ok ==> forall|i: int|
                0 <= i < old(self).program().instructions@.len() ==> Some(
                    final(self).program().instructions@[i],
                ) == #[trigger] old(self).program().resolved_at(i, old(self).data_addr()),
            r is Err ==> final(self).program().instructions@
                == old(self).program().instructions@,
            r matches Err(AsmError::UnresolvedLabel(name)) ==> exists|i: int|
                #[trigger] old(self).program().first_unresolved(i, old(self).data_addr())
                    && old(self).program().instructions@[i].memory_ref()->0.label == name,
    {
        proof {
            lemma_sum_nonneg(self.segment_sizes());
            lemma_sum_prefix(self.segment_sizes(), 1);
            assert(self.segment_sizes().take(1).drop_last() =~= Seq::<int>::empty());
        }
        let code_len = self.program.as_bytes().len();
        let data_addr = VADDR_START + self.len_headers() as u64 + code_len as u64;
        let entry = self.elf_header.entry();
        let ghost before = self.program;
        let r = self.program.backpatch(entry as u32, data_addr as u32);
        proof {
            if r is Ok {
                lemma_resolved_same_sizes(before, self.program, data_addr as int);
            }
            assert(self.segment_sizes() =~= old(self).segment_sizes());
        }
        r
    }
}

/// A prefix of non-negative sizes adds up to no more than all of them.
pub proof fn lemma_sum_prefix(sizes: Seq<int>, i: int)
    requires
        0 <= i <= sizes.len(),
        forall|k: int| 0 <= k < sizes.len() ==> #[trigger] sizes[k] >= 0,
    ensures
        0 <= sum(sizes.take(i)) <= sum(sizes),
    decreases sizes.len(),
{
    if i < sizes.len() {
        assert(sizes.take(i) =~= sizes.drop_last().take(i));
        lemma_sum_prefix(sizes.drop_last(), i);
    } else {
        assert(sizes.take(i) =~= sizes);
        lemma_sum_nonneg(sizes);
    }
}

pub proof fn lemma_sum_nonneg(sizes: Seq<int>)
    requires
        forall|k: int| 0 <= k < sizes.len() ==> #[trigger] sizes[k] >= 0,
    ensures
        sum(sizes) >= 0,
    decreases sizes.len(),
{
    if sizes.len() > 0 {
        lemma_sum_nonneg(sizes.drop_last());
    }
}

/// Serialized program headers take 56 bytes each.
proof fn lemma_headers_bytes_len(headers: Seq<ProgramHeader>)
    ensures
        headers_bytes(headers).len() == headers.len() * PROGRAM_HEADER_SIZE,
    decreases headers.len(),
{
    if headers.len() > 0 {
        lemma_headers_bytes_len(headers.drop_last());
        headers.last().lemma_size();
    }
}

/// In a well-formed image the file sizes of the first `i` segments add up to
/// the sum of their sizes.
proof fn lemma_filesz_sum(e: &Elf, i: int)
    requires
        e.wf(),
        0 <= i <= e.segments().len(),
    ensures
        filesz_sum(e.segments().take(i)) == sum(e.segment_sizes().take(i)),
    decreases i,
{
    if i > 0 {
        lemma_filesz_sum(e, i - 1);
        assert(e.segments().take(i).drop_last() =~= e.segments().take(i - 1));
        assert(e.segment_sizes().take(i).drop_last() =~= e.segment_sizes().take(i - 1));
        assert(e.segments()[i - 1].describes(
            e.segments()[i - 1].spec_flags(),
            sum(e.segment_sizes().take(i - 1)),
            e.segment_sizes()[i - 1],
        ));
    }
}

/// ELF self-consistency: the entry point lies `0x40 + phnum * 0x38` bytes
/// past `VADDR_START`, which is the size of the header and of all program
/// headers; each segment starts at the sum of the file sizes of the segments
/// before it, and is loaded at `VADDR_START` plus that offset.
pub proof fn lemma_elf_consistent(e: &Elf)
    requires
        e.wf(),
    ensures
        e.header().spec_entry() - VADDR_START == ELF_HEADER_SIZE + e.header().spec_phnum()
            * PROGRAM_HEADER_SIZE,
        ELF_HEADER_SIZE + e.header().spec_phnum() * PROGRAM_HEADER_SIZE == e.header().encoding().len()
            + headers_bytes(e.segments()).len(),
        forall|i: int|
            0 <= i < e.segments().len() ==> #[trigger] e.segments()[i].spec_offset() == filesz_sum(
                e.segments().take(i),
            ) && e.segments()[i].spec_vaddr() == VADDR_START + e.segments()[i].spec_offset(),
{
    e.header().lemma_size();
    lemma_headers_bytes_len(e.segments());
    assert forall|i: int| 0 <= i < e.segments().len() implies #[trigger] e.segments()[
        i
    ].spec_offset() == filesz_sum(e.segments().take(i)) && e.segments()[i].spec_vaddr()
        == VADDR_START + e.segments()[i].spec_offset() by {
        lemma_filesz_sum(e, i);
        assert(e.segments()[i].describes(
            e.segments()[i].spec_flags(),
            sum(e.segment_sizes().take(i)),
            e.segment_sizes()[i],
        ));
    }
}

impl AsBytes for Elf {
    open spec fn encodable(&self) -> bool {
        self.wf()
    }

    open spec fn encoding(&self) -> Seq<u8> {
        self.header().encoding() + headers_bytes(self.segments()) + code_bytes(
            self.program().instructions@,
        ) + concat_all(self.blobs())
    }

    /// The image: header, program headers, code, then data.
    fn as_bytes(&self) -> (r: Vec<u8>)
        ensures
            r@.subrange(0, ELF_HEADER_SIZE as int) == header_bytes(
                self.header().spec_entry(),
                self.header().spec_phnum(),
            ),
    {
        proof {
            self.header().lemma_size();
            self.header().lemma_fixed_bytes();
        }
        let ghost segments = self.segments();
        let mut data = self.elf_header.as_bytes();
        data.append(&mut self.program_header.as_bytes());
        proof {
            assert(segments.take(1).drop_last() =~= Seq::<ProgramHeader>::empty());
            assert(headers_bytes(Seq::<ProgramHeader>::empty()) == Seq::<u8>::empty());
            assert(data@ =~= self.header().encoding() + headers_bytes(segments.take(1)));
        }
        let mut i: usize = 0;
        while i < self.headers.len()
            invariant
                segments == self.segments(),
                i <= self.headers@.len(),
                data@ == self.header().encoding() + headers_bytes(segments.take(i + 1)),
            decreases self.headers@.len() - i,
        {
            data.append(&mut self.headers[i].as_bytes());
            proof {
                assert(segments.take(i + 2).drop_last() =~= segments.take(i + 1));
                assert(segments[i + 1] == self.headers@[i as int]);
                assert(data@ =~= self.header().encoding() + headers_bytes(segments.take(i + 2)));
            }
            i = i + 1;
        }
        assert(segments.take(i + 1) =~= segments);
        data.append(&mut self.program.as_bytes());
        let ghost prefix = data@;
        let mut j: usize = 0;
        proof {
            assert(self.blobs().take(0) =~= Seq::<Seq<u8>>::empty());
            assert(concat_all(Seq::<Seq<u8>>::empty()) == Seq::<u8>::empty());
            assert(data@ =~= prefix + concat_all(self.blobs().take(0)));
        }
        while j < self.datas.len()
            invariant
                j <= self.datas@.len(),
                self.blobs().len() == self.datas@.len(),
                data@ == prefix + concat_all(self.blobs().take(j as int)),
            decreases self.datas@.len() - j,
        {
            data.append(&mut self.datas[j].as_slice().as_bytes());
            proof {
                assert(self.blobs().take(j + 1).drop_last() =~= self.blobs().take(j as int));
                assert(self.blobs()[j as int] == self.datas@[j as int]@);
                assert(data@ =~= prefix + concat_all(self.blobs().take(j + 1)));
            }
            j = j + 1;
        }
        assert(self.blobs().take(j as int) =~= self.blobs());
        data
    }
}

} // verus!
