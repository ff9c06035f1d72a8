use tiny_elf::assembly::{AsmError, DataEntry, DataSection, Memory, Mnemonic, Operand, Program, Register};
use tiny_elf::prelude::AsBytes;

#[test]
fn backward_jump_to_label() {
    let mut program = Program::default().label("L").add(Mnemonic::Jmp("L".into()));
    assert_eq!(program.as_bytes(), vec![0x48, 0xE9, 0, 0, 0, 0]);
    assert_eq!(program.backpatch(0, 0), Ok(()));
    assert_eq!(program.as_bytes(), vec![0x48, 0xE9, 0xFA, 0xFF, 0xFF, 0xFF]);
}

#[test]
fn forward_jump_to_label() {
    let mut program = Program::default()
        .add(Mnemonic::Jmp("L".into()))
        .label("L")
        .add(Mnemonic::Ret);
    assert_eq!(program.backpatch(0, 0), Ok(()));
    assert_eq!(program.as_bytes(), vec![0x48, 0xE9, 0x00, 0x00, 0x00, 0x00, 0x48, 0xC3]);
}

#[test]
fn conditional_branch_displacement() {
    // JE is 7 bytes; the label sits after a 3-byte INC, so 10 - 7 = 3.
    let mut program = Program::default()
        .add(Mnemonic::Je("end".into()))
        .add(Mnemonic::Inc(Register::Rax))
        .label("end")
        .add(Mnemonic::Call("end".into()));
    assert_eq!(program.backpatch(0, 0), Ok(()));
    assert_eq!(
        program.as_bytes(),
        vec![
            0x48, 0x0F, 0x84, 0x03, 0x00, 0x00, 0x00, 0x48, 0xFF, 0xC0, 0x48, 0xE8, 0xFA, 0xFF,
            0xFF, 0xFF
        ]
    );
}

#[test]
fn later_label_definition_wins() {
    let mut program = Program::default()
        .label("L")
        .add(Mnemonic::Ret)
        .label("L")
        .add(Mnemonic::Jmp("L".into()));
    assert_eq!(program.backpatch(0, 0), Ok(()));
    // The second definition is at offset 2; the JMP ends at 8.
    assert_eq!(program.as_bytes()[4..], [0xFA, 0xFF, 0xFF, 0xFF]);
}

#[test]
fn data_reference_gets_absolute_address() {
    let mut program = Program::default()
        .insert_data("first", "abc")
        .insert_data("msg", "hi\n")
        .add(Mnemonic::Mov(Register::Rsi, Memory::from("msg").into()))
        .add(Mnemonic::Mov(Register::Rdx, 3.into()));
    assert_eq!(program.backpatch(0x400000, 0x400100), Ok(()));
    assert_eq!(
        program.as_bytes(),
        vec![
            0x48, 0xC7, 0xC6, 0x03, 0x01, 0x40, 0x00, 0x48, 0xC7, 0xC2, 0x03, 0x00, 0x00, 0x00
        ]
    );
}

#[test]
fn empty_label_is_left_alone() {
    let mut program = Program::default().add(Mnemonic::Jmp(Memory { addr: 5, label: String::new() }));
    assert_eq!(program.backpatch(0, 0), Ok(()));
    assert_eq!(program.as_bytes(), vec![0x48, 0xE9, 0x05, 0x00, 0x00, 0x00]);
}

#[test]
fn missing_label_is_reported() {
    let mut program = Program::default()
        .label("there")
        .add(Mnemonic::Jmp("there".into()))
        .add(Mnemonic::Call("nowhere".into()))
        .add(Mnemonic::Jmp("elsewhere".into()));
    let before = program.as_bytes();
    assert_eq!(
        program.backpatch(0, 0),
        Err(AsmError::UnresolvedLabel("nowhere".to_string()))
    );
    assert_eq!(program.as_bytes(), before);
}

#[test]
fn missing_data_is_reported() {
    let mut program = Program::default()
        .add(Mnemonic::Mov(Register::Rsi, Memory::from("msg").into()));
    assert_eq!(program.backpatch(0, 0x1000), Err(AsmError::UnresolvedLabel("msg".to_string())));
}

#[test]
fn unsupported_instruction_stops_backpatch() {
    let mut program = Program::default()
        .add(Mnemonic::Add(Register::Rax, Operand::Mem(Memory::from("x"))));
    assert_eq!(program.backpatch(0, 0), Err(AsmError::UnsupportedOperand));
}

#[test]
fn function_prologue_and_epilogue() {
    let program = Program::default().func("f").func_end();
    assert_eq!(program.instructions.len(), 6);
    assert!(matches!(&program.instructions[0], Mnemonic::Label(l) if l == "f"));
    assert_eq!(
        program.as_bytes(),
        vec![0x48, 0xFF, 0xF5, 0x48, 0x89, 0xE5, 0x48, 0x89, 0xEC, 0x48, 0x8F, 0xC5, 0x48, 0xC3]
    );
}

#[test]
fn data_section_addresses() {
    let mut data = DataSection::new();
    data.insert("a".to_string(), "hello".to_string());
    data.insert("b".to_string(), "é!".to_string());
    data.insert("c".to_string(), String::new());
    let addresses = data.addresses(100);
    assert_eq!(
        addresses,
        vec![("a".to_string(), 100), ("b".to_string(), 105), ("c".to_string(), 108)]
    );
    assert_eq!(data.as_bytes(), b"hello\xC3\xA9!".to_vec());
}

#[test]
fn data_entry_accessors() {
    let entry = DataEntry::new("k".to_string(), "v\n".to_string());
    assert_eq!(entry.key(), "k");
    assert_eq!(entry.value(), "v\n");
    assert_eq!(entry.len(), 2);
    assert_eq!(entry.as_bytes(), vec![b'v', b'\n']);
    let program = Program::default().insert_data("k", "v");
    assert_eq!(program.data().entries_slice()[0].key(), "k");
}
