use tiny_elf::assembly::{Mnemonic, Program, Register};
use tiny_elf::elf_header::{ElfHeader, VADDR_START};
use tiny_elf::prelude::{AsBytes, Elf};
use tiny_elf::program_header::{Flags, ProgramHeader};

fn u64_at(bytes: &[u8], at: usize) -> u64 {
    let mut b = [0u8; 8];
    b.copy_from_slice(&bytes[at..at + 8]);
    u64::from_le_bytes(b)
}

fn u16_at(bytes: &[u8], at: usize) -> u16 {
    u16::from_le_bytes([bytes[at], bytes[at + 1]])
}

fn exit_program() -> Program {
    Program::default()
        .add(Mnemonic::Mov(Register::Rax, 60.into()))
        .add(Mnemonic::Mov(Register::Rdi, 0.into()))
        .add(Mnemonic::Syscall)
}

#[test]
fn exit_image_layout() {
    let program = exit_program();
    let code = program.as_bytes();
    assert_eq!(
        code,
        vec![
            0x48, 0xC7, 0xC0, 0x3C, 0x00, 0x00, 0x00, 0x48, 0xC7, 0xC7, 0x00, 0x00, 0x00, 0x00,
            0x0F, 0x05
        ]
    );
    let mut elf = Elf::new(program);
    assert_eq!(elf.backpatch(), Ok(()));
    let image = elf.as_bytes();
    assert_eq!(image.len(), 0x40 + 0x38 + code.len());
    assert_eq!(elf.len(), image.len());
    assert_eq!(image[..4], [0x7F, b'E', b'L', b'F']);
    assert_eq!(image[4], 2);
    assert_eq!(image[5], 1);
    assert_eq!(image[6], 1);
    assert_eq!(u16_at(&image, 16), 2);
    assert_eq!(u16_at(&image, 18), 0x3E);
    // The entry point is the first code byte.
    assert_eq!(u64_at(&image, 24), VADDR_START + 0x40 + 0x38);
    assert_eq!(u64_at(&image, 32), 0x40);
    assert_eq!(u16_at(&image, 52), 0x40);
    assert_eq!(u16_at(&image, 54), 0x38);
    assert_eq!(u16_at(&image, 56), 1);
    // The code segment: loadable, readable and executable.
    assert_eq!(image[64..72], [1, 0, 0, 0, 5, 0, 0, 0]);
    assert_eq!(u64_at(&image, 72), 0);
    assert_eq!(u64_at(&image, 80), VADDR_START);
    assert_eq!(u64_at(&image, 88), VADDR_START);
    assert_eq!(u64_at(&image, 96), code.len() as u64);
    assert_eq!(u64_at(&image, 104), code.len() as u64);
    assert_eq!(image[0x78..], code[..]);
    // The fixed header fields.
    assert_eq!(
        image[4..24],
        [2, 1, 1, 0, 0, 0, 0, 0, 0, 0, 0, 0, 2, 0, 0x3E, 0, 1, 0, 0, 0]
    );
    assert_eq!(image[40..52], [0; 12]);
    assert_eq!(image[52..56], [0x40, 0, 0x38, 0]);
    assert_eq!(image[58..64], [0; 6]);
    // No alignment constraint on the code segment.
    assert_eq!(u64_at(&image, 112), 0);
}

#[test]
fn segments_follow_each_other() {
    let program = exit_program().insert_data("msg", "hello\n");
    let code_len = program.as_bytes().len() as u64;
    let mut elf = Elf::new(program.clone());
    elf.add_data(program.data(), Flags::all());
    elf.add_data(&b"xyz"[..], Flags::readable());
    let image = elf.as_bytes();
    assert_eq!(u16_at(&image, 56), 3);
    let entry = u64_at(&image, 24);
    assert_eq!(entry - VADDR_START, 0x40 + 3 * 0x38);
    let data_header = 0x40 + 0x38;
    assert_eq!(image[data_header + 4], 7);
    assert_eq!(u64_at(&image, data_header + 8), code_len);
    assert_eq!(u64_at(&image, data_header + 16), VADDR_START + code_len);
    assert_eq!(u64_at(&image, data_header + 32), 6);
    let blob_header = data_header + 0x38;
    assert_eq!(image[blob_header + 4], 4);
    assert_eq!(u64_at(&image, blob_header + 8), code_len + 6);
    assert_eq!(u64_at(&image, blob_header + 16), VADDR_START + code_len + 6);
    assert_eq!(image.len() as u64, 0x40 + 3 * 0x38 + code_len + 6 + 3);
    assert_eq!(image[image.len() - 9..], *b"hello\nxyz");
}

#[test]
fn data_is_addressed_past_the_code() {
    let program = Program::default()
        .insert_data("msg", "hi")
        .add(Mnemonic::Mov(Register::Rsi, tiny_elf::assembly::Memory::from("msg").into()))
        .add(Mnemonic::Syscall);
    let mut elf = Elf::new(program.clone());
    elf.add_data(program.data(), Flags::all());
    assert_eq!(elf.backpatch(), Ok(()));
    let image = elf.as_bytes();
    let code_start = 0x40 + 2 * 0x38;
    let expected = VADDR_START as u32 + code_start as u32 + 9;
    assert_eq!(image[code_start + 3..code_start + 7], expected.to_le_bytes());
}

#[test]
fn header_defaults() {
    let mut header = ElfHeader::default();
    assert_eq!(header.entry(), VADDR_START + 0x40);
    assert_eq!(header.phnum(), 0);
    header.increment_pheader();
    assert_eq!(header.entry(), VADDR_START + 0x40 + 0x38);
    assert_eq!(header.phnum(), 1);
    assert_eq!(header.as_bytes().len(), 64);
}

#[test]
fn program_header_fields() {
    let mut header = ProgramHeader::from_data(&[1, 2, 3], Flags::writeable());
    header.set_offset(9);
    header.set_addr(VADDR_START + 9);
    let bytes = header.as_bytes();
    assert_eq!(bytes.len(), 56);
    assert_eq!(bytes[..8], [1, 0, 0, 0, 2, 0, 0, 0]);
    assert_eq!(u64_at(&bytes, 8), 9);
    assert_eq!(u64_at(&bytes, 16), VADDR_START + 9);
    assert_eq!(u64_at(&bytes, 24), VADDR_START + 9);
    assert_eq!(u64_at(&bytes, 32), 3);
    assert_eq!(u64_at(&bytes, 40), 3);
    assert_eq!(u64_at(&bytes, 48), 0);
    let empty = ProgramHeader::default().as_bytes();
    assert_eq!(empty[..4], [1, 0, 0, 0]);
    assert_eq!(empty[48..], [0; 8]);
    assert_eq!(Flags::executable().union(Flags::readable()).bits(), 5);
    assert_eq!(Flags::empty().bits(), 0);
}
