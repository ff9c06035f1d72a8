use super::{AsmError, Either, Immediate, Instruction, Memory, Operand, Register};
use crate::bytes::{le_bytes, lemma_le_bytes_len, AsBytes};
use vstd::prelude::*;

verus! {

/// The supported x86-64 instructions with their operands.
///
/// See <http://ref.x86asm.net/coder64-abc.html> and
/// <https://wiki.osdev.org/X86-64_Instruction_Encoding#ModR.2FM>.
#[derive(Debug, Clone)]
pub enum Mnemonic {
    Add(Register, Operand),
    Call(Memory),
    Cmp(Register, i32),
    Dec(Register),
    Inc(Register),
    Imul(Register, Operand),
    Je(Memory),
    Jg(Memory),
    Jge(Memory),
    Jl(Memory),
    Jle(Memory),
    Jmp(Memory),
    Jne(Memory),
    Label(String),
    Mov(Register, Operand),
    Pop(Register),
    Push(Operand),
    /// Near return (RETN).
    Ret,
    Sub(Register, Operand),
    Syscall,
    Xor(Register, Operand),
}

/// The REX prefix: W always, B and R as asked.
pub open spec fn rex(b: bool, r: bool) -> u8 {
    (0x48 + (if b {
        1int
    } else {
        0int
    }) + (if r {
        4int
    } else {
        0int
    })) as u8
}

/// An instruction whose ModR/M byte names `r` with an extension digit.
pub open spec fn digit_form(opcode: Seq<u8>, r: Register, digit: u8) -> Seq<u8> {
    seq![rex(r.spec_extended(), false)] + opcode + seq![r.opcode_extend(digit)]
}

/// An instruction whose ModR/M byte names `r` with `r2` in the reg field.
pub open spec fn reg_form(opcode: Seq<u8>, r: Register, r2: Register) -> Seq<u8> {
    seq![rex(r.spec_extended(), r2.spec_extended())] + opcode + seq![r.opcode_extend(
        r2.spec_field(),
    )]
}

/// A near branch: opcode, then the 32-bit displacement.
pub open spec fn branch_form(opcode: Seq<u8>, m: Memory) -> Seq<u8> {
    seq![0x48u8] + opcode + le_bytes(m.addr as int, 4)
}

/// The kind of an operand, with the width of an immediate.
pub open spec fn operand_shape(op: Operand) -> int {
    match op {
        Operand::Mem(_) => 0,
        Operand::Reg(_) => 1,
        Operand::Imm(i) => 1 + i.width() as int,
    }
}

/// The short opcode for an 8-bit immediate, the long one otherwise.
pub open spec fn imm_opcode(i: Immediate, short: u8, long: u8) -> u8 {
    if i is Imm8 {
        short
    } else {
        long
    }
}

impl Mnemonic {
    /// Whether the mnemonic accepts its operand shape.
    pub open spec fn supported(self) -> bool {
        match self {
            Mnemonic::Add(_, op) | Mnemonic::Sub(_, op) | Mnemonic::Imul(_, op) => !(op is Mem),
            Mnemonic::Push(op) => !(op is Mem),
            Mnemonic::Mov(_, op) => !(op matches Operand::Imm(Immediate::Imm8(_))),
            Mnemonic::Xor(_, op) => op is Reg,
            _ => true,
        }
    }

    /// The encoding table.
    pub open spec fn spec_encoding(self) -> Seq<u8> {
        match self {
            Mnemonic::Add(r, Operand::Imm(i)) => digit_form(seq![imm_opcode(i, 0x83, 0x81)], r, 0)
                + i.encoding(),
            Mnemonic::Add(r, Operand::Reg(r2)) => reg_form(seq![0x03], r, r2),
            Mnemonic::Call(m) => branch_form(seq![0xE8], m),
            Mnemonic::Cmp(r, v) => digit_form(seq![0x81], r, 7) + le_bytes(v as int, 4),
            Mnemonic::Dec(r) => digit_form(seq![0xFF], r, 1),
            Mnemonic::Inc(r) => digit_form(seq![0xFF], r, 0),
            Mnemonic::Imul(r, Operand::Imm(i)) => reg_form(seq![imm_opcode(i, 0x6B, 0x69)], r, r)
                + i.encoding(),
            Mnemonic::Imul(r, Operand::Reg(r2)) => reg_form(seq![0x0F, 0xAF], r, r2),
            Mnemonic::Je(m) => branch_form(seq![0x0F, 0x84], m),
            Mnemonic::Jg(m) => branch_form(seq![0x0F, 0x8F], m),
            Mnemonic::Jge(m) => branch_form(seq![0x0F, 0x8D], m),
            Mnemonic::Jl(m) => branch_form(seq![0x0F, 0x8C], m),
            Mnemonic::Jle(m) => branch_form(seq![0x0F, 0x8E], m),
            Mnemonic::Jmp(m) => branch_form(seq![0xE9], m),
            Mnemonic::Jne(m) => branch_form(seq![0x0F, 0x85], m),
            Mnemonic::Mov(r, Operand::Reg(r2)) => reg_form(seq![0x89], r, r2),
            Mnemonic::Mov(r, Operand::Imm(i)) => digit_form(seq![0xC7], r, 0) + i.encoding(),
            Mnemonic::Mov(r, Operand::Mem(m)) => digit_form(seq![0xC7], r, 0) + m.encoding(),
            Mnemonic::Pop(r) => digit_form(seq![0x8F], r, 0),
            Mnemonic::Push(Operand::Reg(r)) => digit_form(seq![0xFF], r, 6),
            Mnemonic::Push(Operand::Imm(i)) => seq![0x48u8, imm_opcode(i, 0x6A, 0x68)]
                + i.encoding(),
            Mnemonic::Ret => seq![0x48, 0xC3],
            Mnemonic::Sub(r, Operand::Imm(i)) => digit_form(seq![imm_opcode(i, 0x83, 0x81)], r, 5)
                + i.encoding(),
            Mnemonic::Sub(r, Operand::Reg(r2)) => reg_form(seq![0x2B], r, r2),
            Mnemonic::Syscall => seq![0x0F, 0x05],
            Mnemonic::Xor(r, Operand::Reg(r2)) => reg_form(seq![0x33], r, r2),
            _ => Seq::empty(),
        }
    }

    /// Whether the mnemonic is a control transfer to a PC-relative target.
    pub open spec fn is_branch(self) -> bool {
        self is Call || self is Je || self is Jg || self is Jge || self is Jl || self is Jle
            || self is Jmp || self is Jne
    }

    /// The memory reference of a branch, or of `MOV r, mem`.
    pub open spec fn memory_ref(self) -> Option<Memory> {
        match self {
            Mnemonic::Call(m) | Mnemonic::Je(m) | Mnemonic::Jg(m) | Mnemonic::Jge(m)
            | Mnemonic::Jl(m) | Mnemonic::Jle(m) | Mnemonic::Jmp(m) | Mnemonic::Jne(m) => Some(m),
            Mnemonic::Mov(_, Operand::Mem(m)) => Some(m),
            _ => None,
        }
    }

    /// The mnemonic with the displacement of its memory reference replaced.
    pub open spec fn with_addr(self, addr: i32) -> Mnemonic {
        let set = |m: Memory| Memory { addr, label: m.label };
        match self {
            Mnemonic::Call(m) => Mnemonic::Call(set(m)),
            Mnemonic::Je(m) => Mnemonic::Je(set(m)),
            Mnemonic::Jg(m) => Mnemonic::Jg(set(m)),
            Mnemonic::Jge(m) => Mnemonic::Jge(set(m)),
            Mnemonic::Jl(m) => Mnemonic::Jl(set(m)),
            Mnemonic::Jle(m) => Mnemonic::Jle(set(m)),
            Mnemonic::Jmp(m) => Mnemonic::Jmp(set(m)),
            Mnemonic::Jne(m) => Mnemonic::Jne(set(m)),
            Mnemonic::Mov(r, Operand::Mem(m)) => Mnemonic::Mov(r, Operand::Mem(set(m))),
            _ => self,
        }
    }

    /// Two mnemonics that differ at most in register choice, immediate
    /// values, displacements and labels.
    pub open spec fn same_shape(self, other: Mnemonic) -> bool {
        match (self, other) {
            (Mnemonic::Add(_, x), Mnemonic::Add(_, y)) => operand_shape(x) == operand_shape(y),
            (Mnemonic::Sub(_, x), Mnemonic::Sub(_, y)) => operand_shape(x) == operand_shape(y),
            (Mnemonic::Imul(_, x), Mnemonic::Imul(_, y)) => operand_shape(x) == operand_shape(y),
            (Mnemonic::Mov(_, x), Mnemonic::Mov(_, y)) => operand_shape(x) == operand_shape(y),
            (Mnemonic::Xor(_, x), Mnemonic::Xor(_, y)) => operand_shape(x) == operand_shape(y),
            (Mnemonic::Push(x), Mnemonic::Push(y)) => operand_shape(x) == operand_shape(y),
            (Mnemonic::Call(_), Mnemonic::Call(_)) => true,
            (Mnemonic::Cmp(_, _), Mnemonic::Cmp(_, _)) => true,
            (Mnemonic::Dec(_), Mnemonic::Dec(_)) => true,
            (Mnemonic::Inc(_), Mnemonic::Inc(_)) => true,
            (Mnemonic::Je(_), Mnemonic::Je(_)) => true,
            (Mnemonic::Jg(_), Mnemonic::Jg(_)) => true,
            (Mnemonic::Jge(_), Mnemonic::Jge(_)) => true,
            (Mnemonic::Jl(_), Mnemonic::Jl(_)) => true,
            (Mnemonic::Jle(_), Mnemonic::Jle(_)) => true,
            (Mnemonic::Jmp(_), Mnemonic::Jmp(_)) => true,
            (Mnemonic::Jne(_), Mnemonic::Jne(_)) => true,
            (Mnemonic::Label(_), Mnemonic::Label(_)) => true,
            (Mnemonic::Pop(_), Mnemonic::Pop(_)) => true,
            (Mnemonic::Ret, Mnemonic::Ret) => true,
            (Mnemonic::Syscall, Mnemonic::Syscall) => true,
            _ => false,
        }
    }

    /// The memory reference of a branch, or of `MOV r, mem`.
    pub fn memory(&self) -> (r: Option<&Memory>)
        ensures
            match r {
                Some(m) => self.memory_ref() == Some(*m),
                None => self.memory_ref() is None,
            },
    {
        match self {
            Mnemonic::Call(m) | Mnemonic::Je(m) | Mnemonic::Jg(m) | Mnemonic::Jge(m)
            | Mnemonic::Jl(m) | Mnemonic::Jle(m) | Mnemonic::Jmp(m) | Mnemonic::Jne(m) => Some(m),
            Mnemonic::Mov(_, Operand::Mem(m)) => Some(m),
            _ => None,
        }
    }

    pub fn is_control_transfer(&self) -> (r: bool)
        ensures
            r == self.is_branch(),
    {
        match self {
            Mnemonic::Call(_) | Mnemonic::Je(_) | Mnemonic::Jg(_) | Mnemonic::Jge(_)
            | Mnemonic::Jl(_) | Mnemonic::Jle(_) | Mnemonic::Jmp(_) | Mnemonic::Jne(_) => true,
            _ => false,
        }
    }

    /// A copy of the mnemonic whose memory reference has displacement `addr`.
    pub fn with_address(&self, addr: i32) -> (r: Mnemonic)
        requires
            self.memory_ref() is Some,
        ensures
            r == self.with_addr(addr),
    {
        match self {
            Mnemonic::Call(m) => Mnemonic::Call(Memory { addr, label: m.label.clone() }),
            Mnemonic::Je(m) => Mnemonic::Je(Memory { addr, label: m.label.clone() }),
            Mnemonic::Jg(m) => Mnemonic::Jg(Memory { addr, label: m.label.clone() }),
            Mnemonic::Jge(m) => Mnemonic::Jge(Memory { addr, label: m.label.clone() }),
            Mnemonic::Jl(m) => Mnemonic::Jl(Memory { addr, label: m.label.clone() }),
            Mnemonic::Jle(m) => Mnemonic::Jle(Memory { addr, label: m.label.clone() }),
            Mnemonic::Jmp(m) => Mnemonic::Jmp(Memory { addr, label: m.label.clone() }),
            Mnemonic::Jne(m) => Mnemonic::Jne(Memory { addr, label: m.label.clone() }),
            Mnemonic::Mov(r, Operand::Mem(m)) => Mnemonic::Mov(
                *r,
                Operand::Mem(Memory { addr, label: m.label.clone() }),
            ),
            _ => vstd::pervasive::unreached(),
        }
    }

    pub fn is_supported(&self) -> (r: bool)
        ensures
            r == self.supported(),
    {
        match self {
            Mnemonic::Add(_, op) | Mnemonic::Sub(_, op) | Mnemonic::Imul(_, op) => !matches!(
                op,
                Operand::Mem(_)
            ),
            Mnemonic::Push(op) => !matches!(op, Operand::Mem(_)),
            Mnemonic::Mov(_, op) => !matches!(op, Operand::Imm(Immediate::Imm8(_))),
            Mnemonic::Xor(_, op) => matches!(op, Operand::Reg(_)),
            _ => true,
        }
    }

    /// Encodes the mnemonic, or reports that its operand shape is unsupported.
    pub fn encode(&self) -> (r: Result<Vec<u8>, AsmError>)
        ensures
            self.supported() ==> (r matches Ok(b) && b@ == self.spec_encoding()),
            !self.supported() ==> r == Err::<Vec<u8>, AsmError>(AsmError::UnsupportedOperand),
    {
        if self.is_supported() {
            Ok(self.as_bytes())
        } else {
            Err(AsmError::UnsupportedOperand)
        }
    }
}

/// Joins an instruction's bytes with a trailer.
fn concat(a: Vec<u8>, b: Vec<u8>) -> (r: Vec<u8>)
    ensures
        r@ == a@ + b@,
{
    let mut a = a;
    let mut b = b;
    a.append(&mut b);
    a
}

/// `0x48 | 0x41` and `0x48 | 0x44` and their combinations, as sums.
proof fn lemma_rex_or()
    ensures
        0x48u8 | 0x41u8 == rex(true, false),
        0x48u8 | 0x44u8 == rex(false, true),
        0x49u8 | 0x44u8 == rex(true, true),
{
    assert(0x48u8 | 0x41u8 == 0x49u8) by (bit_vector);
    assert(0x48u8 | 0x44u8 == 0x4Cu8) by (bit_vector);
    assert(0x49u8 | 0x44u8 == 0x4Du8) by (bit_vector);
}

/// An instruction with its opcode and nothing else yet.
pub open spec fn fresh(ins: Instruction) -> bool {
    &&& ins.rex() == 0x48
    &&& ins.operand_bytes() == Seq::<u8>::empty()
    &&& ins.count() == 0
}

/// `opcode /digit`: the ModR/M byte names `r` with an extension digit.
fn with_digit(ins: Instruction, r: Register, digit: u8) -> (out: Instruction)
    requires
        fresh(ins),
        digit < 8,
    ensures
        out.encoding() == digit_form(ins.opcode_bytes(), r, digit),
        out.count() == 0,
{
    proof {
        lemma_rex_or();
    }
    let out = ins.op_extended_register(r, Either::Left(digit));
    assert(out.encoding() =~= digit_form(ins.opcode_bytes(), r, digit));
    out
}

/// The register as first operand: its canonical byte, which is digit 0.
fn with_register(ins: Instruction, r: Register) -> (out: Instruction)
    requires
        fresh(ins),
    ensures
        out.encoding() == digit_form(ins.opcode_bytes(), r, 0),
        out.count() == 1,
{
    proof {
        lemma_rex_or();
    }
    let out = ins.operand(Operand::Reg(r));
    assert(out.encoding() =~= digit_form(ins.opcode_bytes(), r, 0));
    out
}

/// `opcode /r`: the ModR/M byte names `r` with `r2` in the reg field.
fn with_registers(ins: Instruction, r: Register, r2: Register) -> (out: Instruction)
    requires
        fresh(ins),
    ensures
        out.encoding() == reg_form(ins.opcode_bytes(), r, r2),
        out.count() == 0,
{
    proof {
        lemma_rex_or();
    }
    let out = ins.op_extended_register(r, Either::Right(r2));
    assert(out.encoding() =~= reg_form(ins.opcode_bytes(), r, r2));
    out
}

/// Appends an immediate trailer and serializes.
fn with_immediate(ins: Instruction, imm: Immediate) -> (r: Vec<u8>)
    requires
        ins.count() <= 1,
    ensures
        r@ == ins.encoding() + imm.encoding(),
{
    let out = ins.operand(Operand::Imm(imm));
    let r = out.as_bytes();
    assert(r@ =~= ins.encoding() + imm.encoding());
    r
}

/// A near branch: the opcode, then the target's 32-bit displacement.
fn branch(ins: Instruction, target: &Memory) -> (r: Vec<u8>)
    requires
        fresh(ins),
    ensures
        r@ == branch_form(ins.opcode_bytes(), *target),
{
    let r = concat(ins.as_bytes(), target.as_bytes());
    assert(r@ =~= branch_form(ins.opcode_bytes(), *target));
    r
}

/// The short opcode for an 8-bit immediate, the long one otherwise.
fn imm_opcode_of(i: &Immediate, short: u8, long: u8) -> (r: u8)
    ensures
        r == imm_opcode(*i, short, long),
{
    match i {
        Immediate::Imm8(_) => short,
        _ => long,
    }
}

impl AsBytes for Mnemonic {
    open spec fn encodable(&self) -> bool {
        self.supported()
    }

    open spec fn encoding(&self) -> Seq<u8> {
        self.spec_encoding()
    }

    fn as_bytes(&self) -> (r: Vec<u8>) {
        match self {
            Mnemonic::Add(..) | Mnemonic::Imul(..) | Mnemonic::Mov(..) | Mnemonic::Sub(..)
            | Mnemonic::Xor(..) => encode_two_operands(self),
            _ => encode_other(self),
        }
    }
}

/// Encodes the mnemonics that take a register and an operand.
fn encode_two_operands(m: &Mnemonic) -> (r: Vec<u8>)
    requires
        m.supported(),
        m is Add || m is Imul || m is Mov || m is Sub || m is Xor,
    ensures
        r@ == m.spec_encoding(),
{
    match m {
        Mnemonic::Add(r, op) => match op {
            Operand::Imm(imm) => {
                let ins = Instruction::new(imm_opcode_of(imm, 0x83, 0x81));
                with_immediate(with_register(ins, *r), *imm)
            },
            Operand::Reg(r2) => with_registers(Instruction::new(0x03), *r, *r2).as_bytes(),
            Operand::Mem(_) => vstd::pervasive::unreached(),
        },
        Mnemonic::Imul(r, op) => match op {
            Operand::Imm(imm) => {
                let ins = Instruction::new(imm_opcode_of(imm, 0x6B, 0x69));
                with_immediate(with_registers(ins, *r, *r), *imm)
            },
            Operand::Reg(r2) => with_registers(
                Instruction::multibyte(vec![0x0F, 0xAF]),
                *r,
                *r2,
            ).as_bytes(),
            Operand::Mem(_) => vstd::pervasive::unreached(),
        },
        Mnemonic::Mov(r, op) => match op {
            // MOV r/m64, r64: the destination stands in the r/m field.
            Operand::Reg(r2) => with_registers(Instruction::new(0x89), *r, *r2).as_bytes(),
            Operand::Imm(Immediate::Imm8(_)) => vstd::pervasive::unreached(),
            Operand::Imm(imm) => with_immediate(
                with_register(Instruction::new(0xC7), *r),
                *imm,
            ),
            Operand::Mem(mem) => concat(
                with_register(Instruction::new(0xC7), *r).as_bytes(),
                mem.as_bytes(),
            ),
        },
        Mnemonic::Sub(r, op) => match op {
            Operand::Imm(imm) => {
                let ins = Instruction::new(imm_opcode_of(imm, 0x83, 0x81));
                with_immediate(with_digit(ins, *r, 5), *imm)
            },
            Operand::Reg(r2) => with_registers(Instruction::new(0x2B), *r, *r2).as_bytes(),
            Operand::Mem(_) => vstd::pervasive::unreached(),
        },
        Mnemonic::Xor(r, op) => match op {
            Operand::Reg(r2) => with_registers(Instruction::new(0x33), *r, *r2).as_bytes(),
            _ => vstd::pervasive::unreached(),
        },
        _ => vstd::pervasive::unreached(),
    }
}

/// Encodes the mnemonics with one operand or none.
fn encode_other(m: &Mnemonic) -> (r: Vec<u8>)
    requires
        m.supported(),
        !(m is Add || m is Imul || m is Mov || m is Sub || m is Xor),
    ensures
        r@ == m.spec_encoding(),
{
    match m {
        Mnemonic::Call(mem) => branch(Instruction::new(0xE8), mem),
        Mnemonic::Cmp(r, v) => with_immediate(
            with_digit(Instruction::new(0x81), *r, 7),
            Immediate::Imm32(*v),
        ),
        Mnemonic::Dec(r) => with_digit(Instruction::new(0xFF), *r, 1).as_bytes(),
        Mnemonic::Inc(r) => with_digit(Instruction::new(0xFF), *r, 0).as_bytes(),
        Mnemonic::Je(mem) => branch(Instruction::multibyte(vec![0x0F, 0x84]), mem),
        Mnemonic::Jg(mem) => branch(Instruction::multibyte(vec![0x0F, 0x8F]), mem),
        Mnemonic::Jge(mem) => branch(Instruction::multibyte(vec![0x0F, 0x8D]), mem),
        Mnemonic::Jl(mem) => branch(Instruction::multibyte(vec![0x0F, 0x8C]), mem),
        Mnemonic::Jle(mem) => branch(Instruction::multibyte(vec![0x0F, 0x8E]), mem),
        Mnemonic::Jmp(mem) => branch(Instruction::new(0xE9), mem),
        Mnemonic::Jne(mem) => branch(Instruction::multibyte(vec![0x0F, 0x85]), mem),
        Mnemonic::Label(_) => Vec::new(),
        Mnemonic::Pop(r) => with_register(Instruction::new(0x8F), *r).as_bytes(),
        Mnemonic::Push(op) => match op {
            Operand::Reg(r) => with_digit(Instruction::new(0xFF), *r, 6).as_bytes(),
            Operand::Imm(imm) => {
                let ins = Instruction::new(imm_opcode_of(imm, 0x6A, 0x68));
                let r = with_immediate(ins, *imm);
                assert(r@ =~= m.spec_encoding());
                r
            },
            Operand::Mem(_) => vstd::pervasive::unreached(),
        },
        Mnemonic::Ret => {
            let r = Instruction::new(0xC3).as_bytes();
            assert(r@ =~= m.spec_encoding());
            r
        },
        // The one instruction without a REX prefix.
        Mnemonic::Syscall => vec![0x0F, 0x05],
        _ => vstd::pervasive::unreached(),
    }
}

/// Which of REX.B (bit 0) and REX.R (bit 2) a prefix carries.
proof fn lemma_rex_bits(b: bool, r: bool)
    ensures
        (rex(b, r) & 1u8 == 1u8) == b,
        (rex(b, r) & 4u8 == 4u8) == r,
        0x48 <= rex(b, r) <= 0x4F,
{
    assert(0x48u8 & 1u8 == 0u8) by (bit_vector);
    assert(0x48u8 & 4u8 == 0u8) by (bit_vector);
    assert(0x49u8 & 1u8 == 1u8) by (bit_vector);
    assert(0x49u8 & 4u8 == 0u8) by (bit_vector);
    assert(0x4Cu8 & 1u8 == 0u8) by (bit_vector);
    assert(0x4Cu8 & 4u8 == 4u8) by (bit_vector);
    assert(0x4Du8 & 1u8 == 1u8) by (bit_vector);
    assert(0x4Du8 & 4u8 == 4u8) by (bit_vector);
}

/// The forms begin with their prefix byte.
proof fn lemma_form_heads(
    opcode: Seq<u8>,
    r: Register,
    r2: Register,
    digit: u8,
    m: Memory,
    tail: Seq<u8>,
)
    ensures
        (digit_form(opcode, r, digit) + tail).len() > 0,
        (digit_form(opcode, r, digit) + tail)[0] == rex(r.spec_extended(), false),
        (reg_form(opcode, r, r2) + tail).len() > 0,
        (reg_form(opcode, r, r2) + tail)[0] == rex(r.spec_extended(), r2.spec_extended()),
        branch_form(opcode, m).len() > 0,
        branch_form(opcode, m)[0] == rex(false, false),
{
}

/// Every encoded mnemonic but SYSCALL and LABEL begins with a REX prefix in
/// `0x48..=0x4F`; SYSCALL begins with `0x0F`; LABEL encodes to no bytes.
pub proof fn lemma_rex_discipline(m: Mnemonic)
    requires
        m.supported(),
    ensures
        m is Label ==> m.spec_encoding().len() == 0,
        m is Syscall ==> m.spec_encoding().len() > 0 && m.spec_encoding()[0] == 0x0F,
        !(m is Label) && !(m is Syscall) ==> m.spec_encoding().len() > 0 && 0x48
            <= m.spec_encoding()[0] <= 0x4F,
{
    let e = m.spec_encoding();
    let none = Seq::<u8>::empty();
    let mem = Memory { addr: 0, label: arbitrary() };
    lemma_rex_bits(false, false);
    match m {
        Mnemonic::Add(r, op) | Mnemonic::Sub(r, op) | Mnemonic::Mov(r, op) => {
            lemma_rex_bits(r.spec_extended(), false);
            match op {
                Operand::Reg(r2) => {
                    lemma_rex_bits(r.spec_extended(), r2.spec_extended());
                    let opcode = if m is Add {
                        seq![0x03u8]
                    } else if m is Sub {
                        seq![0x2Bu8]
                    } else {
                        seq![0x89u8]
                    };
                    assert(e == reg_form(opcode, r, r2) + none);
                    lemma_form_heads(opcode, r, r2, 0, mem, none);
                },
                Operand::Imm(i) => {
                    let opcode = if m is Add {
                        seq![imm_opcode(i, 0x83, 0x81)]
                    } else if m is Sub {
                        seq![imm_opcode(i, 0x83, 0x81)]
                    } else {
                        seq![0xC7u8]
                    };
                    let digit: u8 = if m is Sub {
                        5
                    } else {
                        0
                    };
                    assert(e == digit_form(opcode, r, digit) + i.encoding());
                    lemma_form_heads(opcode, r, r, digit, mem, i.encoding());
                },
                Operand::Mem(x) => {
                    assert(e == digit_form(seq![0xC7u8], r, 0) + x.encoding());
                    lemma_form_heads(seq![0xC7u8], r, r, 0, mem, x.encoding());
                },
            }
        },
        Mnemonic::Imul(r, op) => {
            lemma_rex_bits(r.spec_extended(), r.spec_extended());
            match op {
                Operand::Reg(r2) => {
                    lemma_rex_bits(r.spec_extended(), r2.spec_extended());
                    assert(e == reg_form(seq![0x0Fu8, 0xAF], r, r2) + none);
                    lemma_form_heads(seq![0x0Fu8, 0xAF], r, r2, 0, mem, none);
                },
                Operand::Imm(i) => {
                    let opcode = seq![imm_opcode(i, 0x6B, 0x69)];
                    assert(e == reg_form(opcode, r, r) + i.encoding());
                    lemma_form_heads(opcode, r, r, 0, mem, i.encoding());
                },
                Operand::Mem(_) => {},
            }
        },
        Mnemonic::Xor(r, op) => {
            if let Operand::Reg(r2) = op {
                lemma_rex_bits(r.spec_extended(), r2.spec_extended());
                assert(e == reg_form(seq![0x33u8], r, r2) + none);
                lemma_form_heads(seq![0x33u8], r, r2, 0, mem, none);
            }
        },
        Mnemonic::Cmp(r, v) => {
            lemma_rex_bits(r.spec_extended(), false);
            lemma_form_heads(seq![0x81u8], r, r, 7, mem, le_bytes(v as int, 4));
        },
        Mnemonic::Dec(r) | Mnemonic::Inc(r) | Mnemonic::Pop(r) => {
            lemma_rex_bits(r.spec_extended(), false);
            let opcode = if m is Pop {
                seq![0x8Fu8]
            } else {
                seq![0xFFu8]
            };
            let digit: u8 = if m is Dec {
                1
            } else {
                0
            };
            assert(e == digit_form(opcode, r, digit) + none);
            lemma_form_heads(opcode, r, r, digit, mem, none);
        },
        Mnemonic::Push(op) => {
            if let Operand::Reg(r) = op {
                lemma_rex_bits(r.spec_extended(), false);
                assert(e == digit_form(seq![0xFFu8], r, 6) + none);
                lemma_form_heads(seq![0xFFu8], r, r, 6, mem, none);
            }
        },
        Mnemonic::Call(x) | Mnemonic::Je(x) | Mnemonic::Jg(x) | Mnemonic::Jge(x) | Mnemonic::Jl(x)
        | Mnemonic::Jle(x) | Mnemonic::Jmp(x) | Mnemonic::Jne(x) => {
            let opcode = match m {
                Mnemonic::Call(_) => seq![0xE8u8],
                Mnemonic::Jmp(_) => seq![0xE9u8],
                Mnemonic::Je(_) => seq![0x0Fu8, 0x84],
                Mnemonic::Jg(_) => seq![0x0Fu8, 0x8F],
                Mnemonic::Jge(_) => seq![0x0Fu8, 0x8D],
                Mnemonic::Jl(_) => seq![0x0Fu8, 0x8C],
                Mnemonic::Jle(_) => seq![0x0Fu8, 0x8E],
                _ => seq![0x0Fu8, 0x85],
            };
            assert(e == branch_form(opcode, x));
            lemma_form_heads(opcode, Register::Rax, Register::Rax, 0, x, none);
        },
        _ => {},
    }
}

/// In the register-to-register forms, REX.B is set exactly when the first
/// register is extended and REX.R exactly when the second one is.
pub proof fn lemma_rex_extension_bits(m: Mnemonic, r1: Register, r2: Register)
    requires
        m == Mnemonic::Add(r1, Operand::Reg(r2)) || m == Mnemonic::Sub(r1, Operand::Reg(r2))
            || m == Mnemonic::Imul(r1, Operand::Reg(r2)) || m == Mnemonic::Mov(
            r1,
            Operand::Reg(r2),
        ) || m == Mnemonic::Xor(r1, Operand::Reg(r2)),
    ensures
        (m.spec_encoding()[0] & 1u8 == 1u8) <==> r1.spec_extended(),
        (m.spec_encoding()[0] & 4u8 == 4u8) <==> r2.spec_extended(),
{
    lemma_rex_bits(r1.spec_extended(), r2.spec_extended());
}

/// The encoded length of a mnemonic depends on its shape alone: the variant,
/// the kind of each operand and the width of an immediate, never on values.
pub proof fn lemma_stable_size(a: Mnemonic, b: Mnemonic)
    requires
        a.same_shape(b),
    ensures
        a.supported() == b.supported(),
        a.spec_encoding().len() == b.spec_encoding().len(),
{
    match (a, b) {
        (Mnemonic::Add(_, Operand::Imm(x)), Mnemonic::Add(_, Operand::Imm(y)))
        | (Mnemonic::Sub(_, Operand::Imm(x)), Mnemonic::Sub(_, Operand::Imm(y)))
        | (Mnemonic::Imul(_, Operand::Imm(x)), Mnemonic::Imul(_, Operand::Imm(y)))
        | (Mnemonic::Mov(_, Operand::Imm(x)), Mnemonic::Mov(_, Operand::Imm(y)))
        | (Mnemonic::Push(Operand::Imm(x)), Mnemonic::Push(Operand::Imm(y))) => {
            lemma_le_bytes_len(x.value(), x.width());
            lemma_le_bytes_len(y.value(), y.width());
        },
        (Mnemonic::Cmp(_, x), Mnemonic::Cmp(_, y)) => {
            lemma_le_bytes_len(x as int, 4);
            lemma_le_bytes_len(y as int, 4);
        },
        _ => {
            if let (Some(x), Some(y)) = (a.memory_ref(), b.memory_ref()) {
                lemma_le_bytes_len(x.addr as int, 4);
                lemma_le_bytes_len(y.addr as int, 4);
            }
        },
    }
}

/// Replacing a displacement keeps the shape, hence the encoded length.
pub proof fn lemma_with_addr_same_shape(m: Mnemonic, addr: i32)
    ensures
        m.same_shape(m.with_addr(addr)),
        m.with_addr(addr).supported() == m.supported(),
        m.with_addr(addr).spec_encoding().len() == m.spec_encoding().len(),
{
    lemma_stable_size(m, m.with_addr(addr));
}

} // verus!
