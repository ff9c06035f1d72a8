use super::{Operand, Register};
use crate::bytes::AsBytes;
use vstd::prelude::*;

verus! {

/// The bits of the REX prefix that this encoder sets.
#[derive(Debug, Clone, Copy, PartialEq, Eq, Structural)]
pub enum RexPrefix {
    /// 64-bit operand size; always present.
    W,
    /// Extends the ModR/M reg field: an extended register as second operand.
    R,
    /// Extends the ModR/M r/m field: an extended register as first operand.
    B,
}

impl RexPrefix {
    pub open spec fn spec_bits(self) -> u8 {
        match self {
            RexPrefix::W => 0x48,
            RexPrefix::R => 0x44,
            RexPrefix::B => 0x41,
        }
    }

    pub fn bits(&self) -> (r: u8)
        ensures
            r == self.spec_bits(),
    {
        match self {
            RexPrefix::W => 0x48,
            RexPrefix::R => 0x44,
            RexPrefix::B => 0x41,
        }
    }
}

/// One of two alternatives.
pub enum Either<L, R> {
    Left(L),
    Right(R),
}

/// The value placed in the ModR/M reg field: an extension digit, or the field
/// of a second register.
pub open spec fn reg_field(ext: Either<u8, Register>) -> u8 {
    match ext {
        Either::Left(n) => n,
        Either::Right(r2) => r2.spec_field(),
    }
}

/// Builds one instruction: REX prefix, opcode bytes, then operand bytes.
pub struct Instruction {
    prefix: u8,
    opcode: Vec<u8>,
    operands: Vec<u8>,
    operand_count: u8,
}

/// Setting REX.B or REX.R keeps REX.W.
proof fn lemma_keeps_w(p: u8)
    requires
        p & 0x48 == 0x48,
    ensures
        (p | 0x41) & 0x48 == 0x48,
        (p | 0x44) & 0x48 == 0x48,
{
    assert((p & 0x48 == 0x48) ==> ((p | 0x41) & 0x48 == 0x48)) by (bit_vector);
    assert((p & 0x48 == 0x48) ==> ((p | 0x44) & 0x48 == 0x48)) by (bit_vector);
}

impl Instruction {
    /// The prefix always carries REX.W: every instruction built here has a
    /// 64-bit operand size.
    #[verifier::type_invariant]
    spec fn has_rex_w(&self) -> bool {
        self.prefix & 0x48 == 0x48
    }

    pub closed spec fn rex(&self) -> u8 {
        self.prefix
    }

    pub closed spec fn opcode_bytes(&self) -> Seq<u8> {
        self.opcode@
    }

    pub closed spec fn operand_bytes(&self) -> Seq<u8> {
        self.operands@
    }

    /// How many operands `operand` has appended.
    pub closed spec fn count(&self) -> nat {
        self.operand_count as nat
    }

    pub fn new(opcode: u8) -> (r: Self)
        ensures
            r.rex() == 0x48,
            r.rex() & 0x48 == 0x48,
            r.opcode_bytes() == seq![opcode],
            r.operand_bytes() == Seq::<u8>::empty(),
            r.count() == 0,
    {
        assert(0x48u8 & 0x48 == 0x48) by (bit_vector);
        Instruction { prefix: 0x48, opcode: vec![opcode], operands: Vec::new(), operand_count: 0 }
    }

    pub fn multibyte(opcode: Vec<u8>) -> (r: Self)
        ensures
            r.rex() == 0x48,
            r.rex() & 0x48 == 0x48,
            r.opcode_bytes() == opcode@,
            r.operand_bytes() == Seq::<u8>::empty(),
            r.count() == 0,
    {
        assert(0x48u8 & 0x48 == 0x48) by (bit_vector);
        Instruction { prefix: 0x48, opcode, operands: Vec::new(), operand_count: 0 }
    }

    /// Appends an operand. An extended register sets REX.B as first operand
    /// and REX.R as second.
    pub fn operand(self, operand: Operand) -> (r: Self)
        requires
            self.count() < 255,
        ensures
            r.count() == self.count() + 1,
            r.rex() & 0x48 == 0x48,
            r.opcode_bytes() == self.opcode_bytes(),
            r.operand_bytes() == self.operand_bytes() + operand.encoding(),
            r.rex() == if operand.is_extended_register() && r.count() == 1 {
                self.rex() | 0x41
            } else if operand.is_extended_register() && r.count() == 2 {
                self.rex() | 0x44
            } else {
                self.rex()
            },
    {
        proof {
            use_type_invariant(&self);
            lemma_keeps_w(self.prefix);
            lemma_keeps_w(self.prefix | 0x41);
        }
        let Instruction { prefix, opcode, mut operands, operand_count } = self;
        let count = operand_count + 1;
        let mut rex = prefix;
        if let Operand::Reg(reg) = &operand {
            if reg.is_extended() {
                if count == 1 {
                    rex = rex | RexPrefix::B.bits();
                } else if count == 2 {
                    rex = rex | RexPrefix::R.bits();
                }
            }
        }
        let mut bytes = operand.as_bytes();
        operands.append(&mut bytes);
        Instruction { prefix: rex, opcode, operands, operand_count: count }
    }

    /// Appends the ModR/M byte of `reg` with `ext` in its reg field: an
    /// opcode extension digit, or a second register.
    ///
    /// See <http://ref.x86asm.net/#column_o>.
    pub fn op_extended_register(self, reg: Register, ext: Either<u8, Register>) -> (r: Self)
        requires
            ext matches Either::Left(n) ==> n < 8,
        ensures
            r.count() == self.count(),
            r.rex() & 0x48 == 0x48,
            r.opcode_bytes() == self.opcode_bytes(),
            r.operand_bytes() == self.operand_bytes() + seq![reg.opcode_extend(reg_field(ext))],
            r.rex() == ({
                let with_b = if reg.spec_extended() {
                    self.rex() | 0x41
                } else {
                    self.rex()
                };
                if ext matches Either::Right(r2) && r2.spec_extended() {
                    with_b | 0x44
                } else {
                    with_b
                }
            }),
    {
        proof {
            use_type_invariant(&self);
            lemma_keeps_w(self.prefix);
            lemma_keeps_w(self.prefix | 0x41);
        }
        let Instruction { prefix, opcode, mut operands, operand_count } = self;
        let mut rex = prefix;
        if reg.is_extended() {
            rex = rex | RexPrefix::B.bits();
        }
        let mut bytes = match ext {
            Either::Left(n) => reg.as_bytes_opcode_extend(n),
            Either::Right(r2) => {
                if r2.is_extended() {
                    rex = rex | RexPrefix::R.bits();
                }
                reg.as_bytes_opcode_extend(r2.field())
            },
        };
        operands.append(&mut bytes);
        Instruction { prefix: rex, opcode, operands, operand_count }
    }
}

impl AsBytes for Instruction {
    open spec fn encodable(&self) -> bool {
        true
    }

    open spec fn encoding(&self) -> Seq<u8> {
        seq![self.rex()] + self.opcode_bytes() + self.operand_bytes()
    }

    fn as_bytes(&self) -> (r: Vec<u8>) {
        let mut bytes: Vec<u8> = vec![self.prefix];
        let mut i: usize = 0;
        while i < self.opcode.len()
            invariant
                i <= self.opcode@.len(),
                bytes@ == seq![self.prefix] + self.opcode@.subrange(0, i as int),
            decreases self.opcode@.len() - i,
        {
            bytes.push(self.opcode[i]);
            i = i + 1;
            assert(bytes@ =~= seq![self.prefix] + self.opcode@.subrange(0, i as int));
        }
        let mut j: usize = 0;
        while j < self.operands.len()
            invariant
                j <= self.operands@.len(),
                bytes@ == seq![self.prefix] + self.opcode@ + self.operands@.subrange(0, j as int),
            decreases self.operands@.len() - j,
        {
            bytes.push(self.operands[j]);
            j = j + 1;
            assert(bytes@ =~= seq![self.prefix] + self.opcode@ + self.operands@.subrange(
                0,
                j as int,
            ));
        }
        assert(self.opcode@.subrange(0, self.opcode@.len() as int) =~= self.opcode@);
        assert(self.operands@.subrange(0, self.operands@.len() as int) =~= self.operands@);
        bytes
    }
}

} // verus!
