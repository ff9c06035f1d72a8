use super::{AsmError, Mnemonic, Operand, Register};
use super::mnemonic::lemma_with_addr_same_shape;
use crate::bytes::{le_bytes, lemma_le_bytes_len, AsBytes};
use vstd::prelude::*;

mod data_section;

pub use data_section::{data_bytes, data_len, lemma_data_len_prefix, DataEntry, DataSection};

verus! {

/// The machine code of a sequence of instructions.
pub open spec fn code_bytes(instrs: Seq<Mnemonic>) -> Seq<u8>
    decreases instrs.len(),
{
    if instrs.len() == 0 {
        Seq::empty()
    } else {
        code_bytes(instrs.drop_last()) + instrs.last().spec_encoding()
    }
}

pub open spec fn code_size(instrs: Seq<Mnemonic>) -> int {
    code_bytes(instrs).len() as int
}

pub open spec fn all_supported(instrs: Seq<Mnemonic>) -> bool {
    forall|i: int| 0 <= i < instrs.len() ==> #[trigger] instrs[i].supported()
}

/// Each label with the offset of the instruction that follows it, in
/// program order.
pub open spec fn label_table(instrs: Seq<Mnemonic>) -> Seq<(String, u32)>
    decreases instrs.len(),
{
    if instrs.len() == 0 {
        Seq::empty()
    } else {
        let before = label_table(instrs.drop_last());
        match instrs.last() {
            Mnemonic::Label(l) => before.push((l, code_size(instrs) as u32)),
            _ => before,
        }
    }
}

/// The value of the last entry named `name`: a later definition wins.
pub open spec fn last_match(table: Seq<(String, u32)>, name: Seq<char>) -> Option<u32>
    decreases table.len(),
{
    if table.len() == 0 {
        None
    } else if table.last().0@ == name {
        Some(table.last().1)
    } else {
        last_match(table.drop_last(), name)
    }
}

/// Whether the instruction holds a memory reference that names a label.
pub open spec fn needs_patch(m: Mnemonic) -> bool {
    m.memory_ref() is Some && m.memory_ref()->0.label@.len() > 0
}

/// What back-patching makes of `m`, which ends at byte `end` of the code:
/// a branch gets the distance from its end to its label, `MOV r, mem` the
/// absolute address of its data entry. `None` when the label is missing.
pub open spec fn resolve(
    m: Mnemonic,
    end: int,
    labels: Seq<(String, u32)>,
    data: Seq<(String, u32)>,
) -> Option<Mnemonic> {
    if needs_patch(m) {
        let name = m.memory_ref()->0.label@;
        if m.is_branch() {
            match last_match(labels, name) {
                Some(t) => Some(m.with_addr((t - end) as i32)),
                None => None,
            }
        } else {
            match last_match(data, name) {
                Some(a) => Some(m.with_addr(a as i32)),
                None => None,
            }
        }
    } else {
        Some(m)
    }
}

/// A prefix of the code takes no more room than all of it.
pub proof fn lemma_code_size_prefix(instrs: Seq<Mnemonic>, i: int)
    requires
        0 <= i <= instrs.len(),
    ensures
        code_size(instrs.take(i)) <= code_size(instrs),
    decreases instrs.len(),
{
    if i < instrs.len() {
        assert(instrs.take(i) =~= instrs.drop_last().take(i));
        lemma_code_size_prefix(instrs.drop_last(), i);
    } else {
        assert(instrs.take(i) =~= instrs);
    }
}

/// Every label offset lies within the code.
proof fn lemma_label_table_bounded(instrs: Seq<Mnemonic>)
    requires
        code_size(instrs) <= u32::MAX,
    ensures
        forall|k: int|
            0 <= k < label_table(instrs).len() ==> #[trigger] label_table(instrs)[k].1 <= code_size(
                instrs,
            ),
    decreases instrs.len(),
{
    if instrs.len() > 0 {
        let before = label_table(instrs.drop_last());
        assert(code_size(instrs.drop_last()) <= code_size(instrs));
        lemma_label_table_bounded(instrs.drop_last());
        assert forall|k: int| 0 <= k < label_table(instrs).len() implies #[trigger] label_table(
            instrs,
        )[k].1 <= code_size(instrs) by {
            if k < before.len() {
                assert(before[k].1 <= code_size(instrs.drop_last()));
            }
        }
    }
}

/// A value found in a table is bounded as all of its values are.
proof fn lemma_last_match_bounded(table: Seq<(String, u32)>, name: Seq<char>, bound: int)
    requires
        forall|k: int| 0 <= k < table.len() ==> #[trigger] table[k].1 <= bound,
    ensures
        last_match(table, name) matches Some(v) ==> v <= bound,
    decreases table.len(),
{
    if table.len() > 0 {
        lemma_last_match_bounded(table.drop_last(), name, bound);
    }
}

/// The offset recorded for a label is that of its last definition.
proof fn lemma_label_offset(instrs: Seq<Mnemonic>, k: int, name: Seq<char>)
    requires
        0 <= k < instrs.len(),
        instrs[k] matches Mnemonic::Label(l) && l@ == name,
        forall|j: int|
            k < j < instrs.len() ==> !(#[trigger] instrs[j] matches Mnemonic::Label(l) && l@
                == name),
        code_size(instrs) <= u32::MAX,
    ensures
        last_match(label_table(instrs), name) == Some(code_size(instrs.take(k)) as u32),
    decreases instrs.len(),
{
    assert(code_size(instrs.drop_last()) <= code_size(instrs));
    let before = label_table(instrs.drop_last());
    if k == instrs.len() - 1 {
        assert(instrs.take(k) =~= instrs.drop_last());
        if let Mnemonic::Label(l) = instrs.last() {
            assert(code_size(instrs) == code_size(instrs.drop_last()));
            let table = before.push((l, code_size(instrs) as u32));
            assert(label_table(instrs) == table);
            assert(table.last().0@ == name);
        }
    } else {
        assert(instrs.drop_last().take(k) =~= instrs.take(k));
        lemma_label_offset(instrs.drop_last(), k, name);
        if let Mnemonic::Label(l) = instrs.last() {
            let table = before.push((l, code_size(instrs) as u32));
            assert(label_table(instrs) == table);
            assert(table.drop_last() =~= before);
        }
    }
}

/// Two codes whose instructions have pairwise equal lengths have equal size.
proof fn lemma_same_code_size(p: Seq<Mnemonic>, q: Seq<Mnemonic>)
    requires
        p.len() == q.len(),
        forall|i: int|
            0 <= i < p.len() ==> #[trigger] q[i].spec_encoding().len()
                == p[i].spec_encoding().len(),
    ensures
        code_size(q) == code_size(p),
    decreases p.len(),
{
    if p.len() > 0 {
        lemma_same_code_size(p.drop_last(), q.drop_last());
    }
}

/// Back-patching keeps the length and the support of every instruction,
/// hence the size of the code.
pub proof fn lemma_resolved_same_sizes(p: Program, q: Program, data_addr: int)
    requires
        q.instructions@.len() == p.instructions@.len(),
        forall|i: int|
            0 <= i < p.instructions@.len() ==> Some(q.instructions@[i])
                == #[trigger] p.resolved_at(i, data_addr),
    ensures
        forall|i: int|
            0 <= i < p.instructions@.len() ==> #[trigger] q.instructions@[i].spec_encoding().len()
                == p.instructions@[i].spec_encoding().len(),
        forall|i: int|
            0 <= i <= p.instructions@.len() ==> #[trigger] code_size(q.instructions@.take(i))
                == code_size(p.instructions@.take(i)),
        code_size(q.instructions@) == code_size(p.instructions@),
        all_supported(p.instructions@) ==> all_supported(q.instructions@),
{
    assert forall|i: int| 0 <= i < p.instructions@.len() implies #[trigger] q.instructions@[
        i
    ].spec_encoding().len() == p.instructions@[i].spec_encoding().len()
        && q.instructions@[i].supported() == p.instructions@[i].supported() by {
        assert(p.resolved_at(i, data_addr) is Some);
        let m = p.instructions@[i];
        if needs_patch(m) {
            let name = m.memory_ref()->0.label@;
            if m.is_branch() {
                let t = last_match(label_table(p.instructions@), name)->0;
                lemma_with_addr_same_shape(m, (t - p.end_of(i)) as i32);
            } else {
                let a = last_match(p.data.address_table(data_addr), name)->0;
                lemma_with_addr_same_shape(m, a as i32);
            }
        }
    }
    assert forall|i: int| 0 <= i <= p.instructions@.len() implies #[trigger] code_size(
        q.instructions@.take(i),
    ) == code_size(p.instructions@.take(i)) by {
        lemma_same_code_size(p.instructions@.take(i), q.instructions@.take(i));
    }
    lemma_same_code_size(p.instructions@, q.instructions@);
    if all_supported(p.instructions@) {
        assert forall|i: int| 0 <= i < q.instructions@.len() implies #[trigger] q.instructions@[
            i
        ].supported() by {
            assert(q.instructions@[i].spec_encoding().len() == p.instructions@[
                i
            ].spec_encoding().len());
            assert(p.instructions@[i].supported());
        }
    }
}

/// After a successful back-patch, a branch to a label holds, and encodes as
/// its last four bytes, the distance from its own end to that label:
/// `o_L - (o_b + s_b)`, with `o_b` the branch's offset, `s_b` its size and
/// `o_L` the label's offset. The label is its name's last definition.
pub proof fn lemma_backpatch_sound(p: Program, q: Program, data_addr: int, b: int, k: int)
    requires
        all_supported(p.instructions@),
        code_size(p.instructions@) <= i32::MAX,
        q.instructions@.len() == p.instructions@.len(),
        forall|i: int|
            0 <= i < p.instructions@.len() ==> Some(q.instructions@[i])
                == #[trigger] p.resolved_at(i, data_addr),
        0 <= b < p.instructions@.len(),
        p.instructions@[b].is_branch(),
        needs_patch(p.instructions@[b]),
        0 <= k < p.instructions@.len(),
        p.instructions@[k] matches Mnemonic::Label(l) && l@
            == p.instructions@[b].memory_ref()->0.label@,
        forall|j: int|
            k < j < p.instructions@.len() ==> !(#[trigger] p.instructions@[j] matches Mnemonic::Label(
                l,
            ) && l@ == p.instructions@[b].memory_ref()->0.label@),
    ensures
        ({
            let code = q.instructions@;
            let o_l = code_size(code.take(k));
            let o_b = code_size(code.take(b));
            let s_b = code[b].spec_encoding().len() as int;
            &&& code[b].memory_ref()->0.addr == o_l - (o_b + s_b)
            &&& s_b >= 4
            &&& code[b].spec_encoding().subrange(s_b - 4, s_b) == le_bytes(o_l - (o_b + s_b), 4)
        }),
{
    let instrs = p.instructions@;
    let code = q.instructions@;
    let m = instrs[b];
    let name = m.memory_ref()->0.label@;
    lemma_resolved_same_sizes(p, q, data_addr);
    lemma_label_offset(instrs, k, name);
    lemma_code_size_prefix(instrs, k);
    lemma_code_size_prefix(instrs, b + 1);
    assert(instrs.take(b + 1).drop_last() =~= instrs.take(b));
    assert(p.resolved_at(b, data_addr) is Some);
    let t = code_size(instrs.take(k));
    let d = t - p.end_of(b);
    assert(code[b] == m.with_addr(d as i32));
    lemma_le_bytes_len(d, 4);
    let s_b = code[b].spec_encoding().len() as int;
    assert(code[b].spec_encoding().subrange(s_b - 4, s_b) =~= le_bytes(d, 4));
}

/// The value of the last entry of `table` named `name`.
fn find_last(table: &Vec<(String, u32)>, name: &String) -> (r: Option<u32>)
    ensures
        r == last_match(table@, name@),
{
    let mut i: usize = table.len();
    assert(table@.take(i as int) =~= table@);
    while i > 0
        invariant
            i <= table@.len(),
            last_match(table@, name@) == last_match(table@.take(i as int), name@),
        decreases i,
    {
        assert(table@.take(i as int).drop_last() =~= table@.take(i as int - 1));
        if table[i - 1].0 == *name {
            return Some(table[i - 1].1);
        }
        i = i - 1;
    }
    assert(table@.take(0) =~= Seq::<(String, u32)>::empty());
    None
}

/// A program: instructions in order, and a data section.
#[derive(Clone)]
pub struct Program {
    pub instructions: Vec<Mnemonic>,
    pub data: DataSection,
}

impl Program {
    /// The offset just past instruction `i`.
    pub open spec fn end_of(&self, i: int) -> int {
        code_size(self.instructions@.take(i + 1))
    }

    /// Instruction `i` after back-patching with the data section at `data_addr`.
    pub open spec fn resolved_at(&self, i: int, data_addr: int) -> Option<Mnemonic> {
        resolve(
            self.instructions@[i],
            self.end_of(i),
            label_table(self.instructions@),
            self.data.address_table(data_addr),
        )
    }

    pub open spec fn resolvable(&self, data_addr: int) -> bool {
        forall|i: int|
            0 <= i < self.instructions@.len() ==> #[trigger] self.resolved_at(i, data_addr) is Some
    }

    /// Instruction `i` is the first whose reference does not resolve.
    pub open spec fn first_unresolved(&self, i: int, data_addr: int) -> bool {
        &&& 0 <= i < self.instructions@.len()
        &&& self.resolved_at(i, data_addr) is None
        &&& forall|j: int| 0 <= j < i ==> #[trigger] self.resolved_at(j, data_addr) is Some
    }

    /// Resolves every label reference: a branch gets the distance from its
    /// own end to its label, `MOV r, mem` the absolute address of its data
    /// entry when the data section starts at `data_addr`. Branches are
    /// PC-relative, so the start of the code, `_start_addr`, is not needed.
    ///
    /// On error the instructions are left as they were.
    pub fn backpatch(&mut self, _start_addr: u32, data_addr: u32) -> (r: Result<(), AsmError>)
        requires
            code_size(old(self).instructions@) <= i32::MAX,
            data_addr + data_len(old(self).data.entries()) <= i32::MAX,
        ensures
            final(self).data == old(self).data,
            final(self).instructions@.len() == old(self).instructions@.len(),
            !all_supported(old(self).instructions@) ==> r == Err::<(), AsmError>(
                AsmError::UnsupportedOperand,
            ),
            all_supported(old(self).instructions@) ==> (r is Ok <==> old(self).resolvable(
                data_addr as int,
            )),
            all_supported(old(self).instructions@) && !old(self).resolvable(data_addr as int)
                ==> r matches Err(AsmError::UnresolvedLabel(_)),
            r is Ok ==> forall|i: int|
                0 <= i < old(self).instructions@.len() ==> Some(final(self).instructions@[i])
                    == #[trigger] old(self).resolved_at(i, data_addr as int),
            r is Err ==> final(self).instructions@ == old(self).instructions@,
            r matches Err(AsmError::UnresolvedLabel(name)) ==> exists|i: int|
                #[trigger] old(self).first_unresolved(i, data_addr as int)
                    && old(self).instructions@[i].memory_ref()->0.label == name,
    {
        let n = self.instructions.len();
        let ghost instrs = self.instructions@;
        let mut k: usize = 0;
        while k < n
            invariant
                k <= n == instrs.len(),
                self.instructions@ == instrs,
                forall|j: int| 0 <= j < k ==> #[trigger] instrs[j].supported(),
            decreases n - k,
        {
            if !self.instructions[k].is_supported() {
                return Err(AsmError::UnsupportedOperand);
            }
            k = k + 1;
        }
        // First pass: the offset that each label stands for.
        let mut labels: Vec<(String, u32)> = Vec::new();
        let mut offset: u32 = 0;
        let mut i: usize = 0;
        while i < n
            invariant
                i <= n == instrs.len(),
                self.instructions@ == instrs,
                all_supported(instrs),
                code_size(instrs) <= i32::MAX,
                offset == code_size(instrs.take(i as int)),
                labels@ == label_table(instrs.take(i as int)),
            decreases n - i,
        {
            let size = self.instructions[i].as_bytes().len();
            proof {
                assert(instrs.take(i as int + 1).drop_last() =~= instrs.take(i as int));
                lemma_code_size_prefix(instrs, i as int + 1);
            }
            offset = offset + size as u32;
            if let Mnemonic::Label(l) = &self.instructions[i] {
                labels.push((l.clone(), offset));
            }
            i = i + 1;
        }
        assert(instrs.take(n as int) =~= instrs);
        proof {
            lemma_label_table_bounded(instrs);
            lemma_data_len_prefix(self.data.entries(), 0);
        }
        let data_labels = self.data.addresses(data_addr);
        proof {
            assert forall|k: int| 0 <= k < data_labels@.len() implies #[trigger] data_labels@[k].1
                <= i32::MAX by {
                lemma_data_len_prefix(self.data.entries(), k);
            }
        }
        // Second pass: the new displacements, without touching the program.
        let mut disps: Vec<i32> = Vec::new();
        let mut end: u32 = 0;
        i = 0;
        while i < n
            invariant
                i <= n == instrs.len(),
                self.instructions@ == instrs,
                *self == *old(self),
                all_supported(instrs),
                code_size(instrs) <= i32::MAX,
                end == code_size(instrs.take(i as int)),
                labels@ == label_table(instrs),
                data_labels@ == self.data.address_table(data_addr as int),
                forall|k: int| 0 <= k < labels@.len() ==> #[trigger] labels@[k].1 <= code_size(instrs),
                forall|k: int| 0 <= k < data_labels@.len() ==> #[trigger] data_labels@[k].1 <= i32::MAX,
                disps@.len() == i,
                forall|j: int|
                    0 <= j < i ==> #[trigger] self.resolved_at(j, data_addr as int) == Some(
                        if needs_patch(instrs[j]) {
                            instrs[j].with_addr(disps@[j])
                        } else {
                            instrs[j]
                        },
                    ),
            decreases n - i,
        {
            let m = &self.instructions[i];
            let size = m.as_bytes().len();
            proof {
                assert(instrs.take(i as int + 1).drop_last() =~= instrs.take(i as int));
                lemma_code_size_prefix(instrs, i as int + 1);
            }
            end = end + size as u32;
            let mut disp: i32 = 0;
            if let Some(mem) = m.memory() {
                if !mem.label.as_str().is_empty() {
                    if m.is_control_transfer() {
                        proof {
                            lemma_last_match_bounded(labels@, mem.label@, code_size(instrs));
                        }
                        match find_last(&labels, &mem.label) {
                            Some(t) => {
                                disp = (t as i64 - end as i64) as i32;
                            },
                            None => {
                                assert(self.first_unresolved(i as int, data_addr as int));
                                return Err(AsmError::UnresolvedLabel(mem.label.clone()));
                            },
                        }
                    } else {
                        proof {
                            lemma_last_match_bounded(data_labels@, mem.label@, i32::MAX as int);
                        }
                        match find_last(&data_labels, &mem.label) {
                            Some(a) => {
                                disp = a as i32;
                            },
                            None => {
                                assert(self.first_unresolved(i as int, data_addr as int));
                                return Err(AsmError::UnresolvedLabel(mem.label.clone()));
                            },
                        }
                    }
                }
            }
            disps.push(disp);
            i = i + 1;
        }
        // Third pass: write the displacements.
        i = 0;
        while i < n
            invariant
                i <= n == instrs.len() == disps@.len(),
                self.instructions@.len() == n,
                self.data == old(self).data,
                forall|j: int|
                    0 <= j < n ==> #[trigger] old(self).resolved_at(j, data_addr as int) == Some(
                        if needs_patch(instrs[j]) {
                            instrs[j].with_addr(disps@[j])
                        } else {
                            instrs[j]
                        },
                    ),
                forall|j: int|
                    0 <= j < i ==> Some(#[trigger] self.instructions@[j]) == old(self).resolved_at(
                        j,
                        data_addr as int,
                    ),
                forall|j: int| i <= j < n ==> #[trigger] self.instructions@[j] == instrs[j],
            decreases n - i,
        {
            let patch = match self.instructions[i].memory() {
                Some(mem) => !mem.label.as_str().is_empty(),
                None => false,
            };
            if patch {
                let patched = self.instructions[i].with_address(disps[i]);
                self.instructions[i] = patched;
            }
            i = i + 1;
        }
        Ok(())
    }

    /// Adds an instruction to the program.
    pub fn add(self, mnemonic: Mnemonic) -> (r: Self)
        ensures
            r.instructions@ == self.instructions@.push(mnemonic),
            r.data == self.data,
    {
        let mut this = self;
        this.instructions.push(mnemonic);
        this
    }

    /// Adds a named entry to the data section.
    pub fn insert_data(self, key: &str, value: &str) -> (r: Self)
        ensures
            r.instructions@ == self.instructions@,
            r.data.entries().len() == self.data.entries().len() + 1,
            r.data.entries().drop_last() == self.data.entries(),
            r.data.entries().last().spec_key()@ == key@,
            r.data.entries().last().spec_value()@ == value@,
    {
        let mut this = self;
        this.data.insert(key.to_owned(), value.to_owned());
        this
    }

    pub fn data(&self) -> (r: &DataSection)
        ensures
            *r == self.data,
    {
        &self.data
    }

    /// Creates a label in the program, a target for branches.
    pub fn label(self, label: &str) -> (r: Self)
        ensures
            r.instructions@.len() == self.instructions@.len() + 1,
            r.instructions@.drop_last() == self.instructions@,
            r.instructions@.last() matches Mnemonic::Label(l) && l@ == label@,
            r.data == self.data,
    {
        let r = self.add(Mnemonic::Label(label.to_owned()));
        assert(r.instructions@.drop_last() =~= self.instructions@);
        r
    }

    /// Declares a function: its label, then the prologue
    /// `PUSH RBP; MOV RBP, RSP`.
    pub fn func(self, label: &str) -> (r: Self)
        ensures
            r.instructions@.len() == self.instructions@.len() + 3,
            r.instructions@.take(self.instructions@.len() as int) == self.instructions@,
            r.instructions@[self.instructions@.len() as int] matches Mnemonic::Label(l) && l@
                == label@,
            r.instructions@[self.instructions@.len() as int + 1] == Mnemonic::Push(
                Operand::Reg(Register::Rbp),
            ),
            r.instructions@[self.instructions@.len() as int + 2] == Mnemonic::Mov(
                Register::Rbp,
                Operand::Reg(Register::Rsp),
            ),
            r.data == self.data,
    {
        let r = self.label(label).add(Mnemonic::Push(Operand::Reg(Register::Rbp))).add(
            Mnemonic::Mov(Register::Rbp, Operand::Reg(Register::Rsp)),
        );
        assert(r.instructions@.take(self.instructions@.len() as int) =~= self.instructions@);
        r
    }

    /// Ends a function with the epilogue `MOV RSP, RBP; POP RBP; RET`.
    pub fn func_end(self) -> (r: Self)
        ensures
            r.instructions@ == self.instructions@.push(
                Mnemonic::Mov(Register::Rsp, Operand::Reg(Register::Rbp)),
            ).push(Mnemonic::Pop(Register::Rbp)).push(Mnemonic::Ret),
            r.data == self.data,
    {
        self.add(Mnemonic::Mov(Register::Rsp, Operand::Reg(Register::Rbp))).add(
            Mnemonic::Pop(Register::Rbp),
        ).add(Mnemonic::Ret)
    }
}

impl Default for Program {
    fn default() -> (r: Self)
        ensures
            r.instructions@ == Seq::<Mnemonic>::empty(),
            r.data.entries() == Seq::<DataEntry>::empty(),
    {
        Program { instructions: Vec::new(), data: DataSection::new() }
    }
}

impl AsBytes for Program {
    open spec fn encodable(&self) -> bool {
        all_supported(self.instructions@)
    }

    open spec fn encoding(&self) -> Seq<u8> {
        code_bytes(self.instructions@)
    }

    fn as_bytes(&self) -> (r: Vec<u8>) {
        let mut out: Vec<u8> = Vec::new();
        let mut i: usize = 0;
        while i < self.instructions.len()
            invariant
                i <= self.instructions@.len(),
                all_supported(self.instructions@),
                out@ == code_bytes(self.instructions@.take(i as int)),
            decreases self.instructions@.len() - i,
        {
            let mut bytes = self.instructions[i].as_bytes();
            out.append(&mut bytes);
            proof {
                assert(self.instructions@.take(i as int + 1).drop_last() =~= self.instructions@.take(
                    i as int,
                ));
            }
            i = i + 1;
        }
        assert(self.instructions@.take(i as int) =~= self.instructions@);
        out
    }
}

} // verus!
