use tiny_elf::assembly::{
    AsmError, Either, Immediate, Instruction, Memory, Mnemonic, Operand, Register, RexPrefix,
};
use tiny_elf::prelude::AsBytes;

#[test]
fn simple() {
    let bytes = Mnemonic::Mov(Register::Rax, 1.into()).as_bytes();
    assert_eq!(
        bytes,
        vec![
            RexPrefix::W.bits(),
            0xC7,
            *Register::Rax.as_bytes().first().unwrap(),
            0x01,
            0x0,
            0x0,
            0x0
        ]
    );
}

#[test]
fn extended_register_op1() {
    let bytes = Mnemonic::Mov(Register::R8, 1.into()).as_bytes();
    assert_eq!(
        bytes,
        vec![
            RexPrefix::W.bits() | RexPrefix::B.bits(),
            0xC7,
            *Register::R8.as_bytes().first().unwrap(),
            0x1,
            0x0,
            0x0,
            0x0
        ]
    );
}

#[test]
fn extended_register_op2() {
    let bytes = Mnemonic::Mov(Register::Rax, Register::R8.into()).as_bytes();
    assert_eq!(
        bytes,
        vec![
            RexPrefix::W.bits() | RexPrefix::R.bits(),
            0x89,
            *Register::Rax
                .as_bytes_opcode_extend(Register::R8.field())
                .first()
                .unwrap()
        ]
    );
}

const ALL_REGISTERS: [Register; 16] = [
    Register::Rax,
    Register::Rcx,
    Register::Rdx,
    Register::Rbx,
    Register::Rsp,
    Register::Rbp,
    Register::Rsi,
    Register::Rdi,
    Register::R8,
    Register::R9,
    Register::R10,
    Register::R11,
    Register::R12,
    Register::R13,
    Register::R14,
    Register::R15,
];

#[test]
fn canonical_register_bytes() {
    for (i, r) in ALL_REGISTERS.iter().enumerate() {
        let field = (i % 8) as u8;
        assert_eq!(r.as_bytes(), vec![0xC0 + field]);
        assert_eq!(r.field(), field);
        assert_eq!(r.is_extended(), i >= 8);
    }
    assert_eq!(Register::R15.as_bytes(), vec![0xC7]);
}

#[test]
fn opcode_extend_places_digit_in_reg_field() {
    assert_eq!(Register::Rbx.as_bytes_opcode_extend(5), vec![0xC3 + (5 << 3)]);
    assert_eq!(Register::R9.as_bytes_opcode_extend(7), vec![0xF9]);
}

#[test]
fn mov_rax_imm32() {
    let bytes = Mnemonic::Mov(Register::Rax, Operand::Imm(Immediate::Imm32(1))).as_bytes();
    assert_eq!(bytes, vec![0x48, 0xC7, 0xC0, 0x01, 0x00, 0x00, 0x00]);
}

#[test]
fn mov_r8_imm32() {
    let bytes = Mnemonic::Mov(Register::R8, Operand::Imm(Immediate::Imm32(1))).as_bytes();
    assert_eq!(bytes, vec![0x49, 0xC7, 0xC0, 0x01, 0x00, 0x00, 0x00]);
}

#[test]
fn mov_rax_r8() {
    let bytes = Mnemonic::Mov(Register::Rax, Operand::Reg(Register::R8)).as_bytes();
    assert_eq!(bytes, vec![0x4C, 0x89, 0xC0]);
}

#[test]
fn syscall_has_no_rex() {
    assert_eq!(Mnemonic::Syscall.as_bytes(), vec![0x0F, 0x05]);
}

#[test]
fn ret_bytes() {
    assert_eq!(Mnemonic::Ret.as_bytes(), vec![0x48, 0xC3]);
}

#[test]
fn label_encodes_to_nothing() {
    assert_eq!(Mnemonic::Label("here".to_string()).as_bytes(), Vec::<u8>::new());
}

#[test]
fn encoding_table() {
    let rbx = Register::Rbx;
    let r9 = Register::R9;
    let cases: Vec<(Mnemonic, Vec<u8>)> = vec![
        (Mnemonic::Add(rbx, Operand::Imm(Immediate::Imm8(-1))), vec![0x48, 0x83, 0xC3, 0xFF]),
        (
            Mnemonic::Add(rbx, Operand::Imm(Immediate::Imm16(0x102))),
            vec![0x48, 0x81, 0xC3, 0x02, 0x01],
        ),
        (Mnemonic::Add(rbx, Operand::Reg(r9)), vec![0x4C, 0x03, 0xCB]),
        (Mnemonic::Sub(r9, Operand::Imm(Immediate::Imm8(8))), vec![0x49, 0x83, 0xE9, 0x08]),
        (
            Mnemonic::Sub(rbx, Operand::Imm(Immediate::Imm32(-2))),
            vec![0x48, 0x81, 0xEB, 0xFE, 0xFF, 0xFF, 0xFF],
        ),
        (Mnemonic::Sub(rbx, Operand::Reg(Register::Rcx)), vec![0x48, 0x2B, 0xCB]),
        (Mnemonic::Cmp(Register::Rax, 4), vec![0x48, 0x81, 0xF8, 0x04, 0x00, 0x00, 0x00]),
        (Mnemonic::Imul(rbx, Operand::Imm(Immediate::Imm8(3))), vec![0x48, 0x6B, 0xDB, 0x03]),
        (
            Mnemonic::Imul(r9, Operand::Imm(Immediate::Imm32(3))),
            vec![0x4D, 0x69, 0xC9, 0x03, 0x00, 0x00, 0x00],
        ),
        (Mnemonic::Imul(rbx, Operand::Reg(Register::Rcx)), vec![0x48, 0x0F, 0xAF, 0xCB]),
        (Mnemonic::Inc(rbx), vec![0x48, 0xFF, 0xC3]),
        (Mnemonic::Dec(r9), vec![0x49, 0xFF, 0xC9]),
        (Mnemonic::Push(Operand::Reg(Register::Rbp)), vec![0x48, 0xFF, 0xF5]),
        (Mnemonic::Push(Operand::Imm(Immediate::Imm8(1))), vec![0x48, 0x6A, 0x01]),
        (
            Mnemonic::Push(Operand::Imm(Immediate::Imm32(1))),
            vec![0x48, 0x68, 0x01, 0x00, 0x00, 0x00],
        ),
        (Mnemonic::Pop(Register::Rbp), vec![0x48, 0x8F, 0xC5]),
        (Mnemonic::Xor(Register::Rax, Operand::Reg(Register::Rax)), vec![0x48, 0x33, 0xC0]),
        (
            Mnemonic::Mov(Register::Rsi, Operand::Mem(Memory { addr: 0x401000, label: String::new() })),
            vec![0x48, 0xC7, 0xC6, 0x00, 0x10, 0x40, 0x00],
        ),
        (
            Mnemonic::Mov(Register::Rax, Operand::Imm(Immediate::Imm16(-1))),
            vec![0x48, 0xC7, 0xC0, 0xFF, 0xFF],
        ),
    ];
    for (m, expected) in cases {
        assert_eq!(m.as_bytes(), expected, "{:?}", m);
        assert_eq!(m.encode(), Ok(expected.clone()));
    }
}

#[test]
fn branch_encodings() {
    let target = || Memory { addr: -6, label: String::new() };
    let disp = vec![0xFA, 0xFF, 0xFF, 0xFF];
    let cases: Vec<(Mnemonic, Vec<u8>)> = vec![
        (Mnemonic::Call(target()), vec![0x48, 0xE8]),
        (Mnemonic::Jmp(target()), vec![0x48, 0xE9]),
        (Mnemonic::Je(target()), vec![0x48, 0x0F, 0x84]),
        (Mnemonic::Jne(target()), vec![0x48, 0x0F, 0x85]),
        (Mnemonic::Jl(target()), vec![0x48, 0x0F, 0x8C]),
        (Mnemonic::Jle(target()), vec![0x48, 0x0F, 0x8E]),
        (Mnemonic::Jg(target()), vec![0x48, 0x0F, 0x8F]),
        (Mnemonic::Jge(target()), vec![0x48, 0x0F, 0x8D]),
    ];
    for (m, mut expected) in cases {
        expected.extend_from_slice(&disp);
        assert_eq!(m.as_bytes(), expected);
    }
}

#[test]
fn rex_prefix_range() {
    let mut all = Vec::new();
    for r in ALL_REGISTERS {
        all.push(Mnemonic::Inc(r));
        all.push(Mnemonic::Pop(r));
        all.push(Mnemonic::Mov(r, Operand::Reg(Register::R12)));
        all.push(Mnemonic::Imul(r, Operand::Imm(Immediate::Imm8(2))));
    }
    all.push(Mnemonic::Ret);
    all.push(Mnemonic::Jmp(Memory::from("x")));
    for m in &all {
        let first = m.as_bytes()[0];
        assert!((0x48..=0x4F).contains(&first), "{:?}", m);
    }
    assert_eq!(Mnemonic::Syscall.as_bytes()[0], 0x0F);
}

#[test]
fn extended_register_prefix_bits() {
    for r1 in ALL_REGISTERS {
        for r2 in ALL_REGISTERS {
            let forms = vec![
                Mnemonic::Add(r1, Operand::Reg(r2)),
                Mnemonic::Sub(r1, Operand::Reg(r2)),
                Mnemonic::Imul(r1, Operand::Reg(r2)),
                Mnemonic::Mov(r1, Operand::Reg(r2)),
                Mnemonic::Xor(r1, Operand::Reg(r2)),
            ];
            for m in forms {
                let rex = m.as_bytes()[0];
                assert_eq!(rex & 1 == 1, r1.is_extended());
                assert_eq!(rex & 4 == 4, r2.is_extended());
            }
        }
    }
}

#[test]
fn size_depends_on_shape_only() {
    let a = Mnemonic::Mov(Register::Rax, Operand::Imm(Immediate::Imm32(0)));
    let b = Mnemonic::Mov(Register::R15, Operand::Imm(Immediate::Imm32(-123456)));
    assert_eq!(a.as_bytes().len(), b.as_bytes().len());
    let c = Mnemonic::Jne(Memory { addr: 0, label: "a".to_string() });
    let d = Mnemonic::Jne(Memory { addr: 0x7FFF_FFFF, label: "b".to_string() });
    assert_eq!(c.as_bytes().len(), d.as_bytes().len());
    let e = Mnemonic::Add(Register::Rax, Operand::Imm(Immediate::Imm8(1)));
    let f = Mnemonic::Add(Register::Rax, Operand::Imm(Immediate::Imm32(1)));
    assert_ne!(e.as_bytes().len(), f.as_bytes().len());
}

#[test]
fn unsupported_shapes_are_rejected() {
    let mem = || Operand::Mem(Memory::from("data"));
    let rejected = vec![
        Mnemonic::Add(Register::Rax, mem()),
        Mnemonic::Sub(Register::Rax, mem()),
        Mnemonic::Imul(Register::Rax, mem()),
        Mnemonic::Push(mem()),
        Mnemonic::Xor(Register::Rax, mem()),
        Mnemonic::Xor(Register::Rax, Operand::Imm(Immediate::Imm32(1))),
        Mnemonic::Mov(Register::Rax, Operand::Imm(Immediate::Imm8(1))),
    ];
    for m in rejected {
        assert!(!m.is_supported());
        assert_eq!(m.encode(), Err(AsmError::UnsupportedOperand));
    }
}

#[test]
fn immediates_are_little_endian() {
    assert_eq!(Immediate::Imm8(-128).as_bytes(), vec![0x80]);
    assert_eq!(Immediate::Imm16(-2).as_bytes(), vec![0xFE, 0xFF]);
    assert_eq!(Immediate::Imm32(0x1234_5678).as_bytes(), vec![0x78, 0x56, 0x34, 0x12]);
    assert_eq!(Immediate::from(7i16), Immediate::Imm16(7));
    assert_eq!(0x0102_0304u32.as_bytes(), vec![0x04, 0x03, 0x02, 0x01]);
    assert_eq!((-1i32).as_bytes(), vec![0xFF; 4]);
    assert_eq!(0x0102u16.as_bytes(), vec![0x02, 0x01]);
    assert_eq!(1u64.as_bytes(), vec![1, 0, 0, 0, 0, 0, 0, 0]);
}

#[test]
fn memory_reference() {
    let mut m = Memory::from("msg");
    assert_eq!(m.label(), "msg");
    assert_eq!(m.as_bytes(), vec![0, 0, 0, 0]);
    m.set_addr(-2);
    assert_eq!(m.as_bytes(), vec![0xFE, 0xFF, 0xFF, 0xFF]);
    assert_eq!(m.label(), "msg");
    let owned = Memory::from(String::from("other"));
    assert_eq!(owned.label(), "other");
}

#[test]
fn instruction_builder_sets_rex_bits() {
    let one = Instruction::new(0xFF).op_extended_register(Register::R9, Either::Left(1));
    assert_eq!(one.as_bytes(), vec![0x49, 0xFF, 0xC9]);
    let two = Instruction::new(0x03).op_extended_register(Register::Rax, Either::Right(Register::R10));
    assert_eq!(two.as_bytes(), vec![0x4C, 0x03, 0xD0]);
    let operands = Instruction::multibyte(vec![0x0F, 0x01])
        .operand(Operand::Reg(Register::R8))
        .operand(Operand::Reg(Register::R9))
        .operand(Operand::Reg(Register::R10));
    assert_eq!(operands.as_bytes(), vec![0x4D, 0x0F, 0x01, 0xC0, 0xC1, 0xC2]);
}
