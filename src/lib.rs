//! Emits minimal x86-64 Linux executables: a typed instruction encoder, a
//! two-pass back-patcher for labels, and an ELF64 image composer.

pub mod assembly;
pub mod bytes;
pub mod elf;
pub mod elf_header;
pub mod prelude;
pub mod program_header;

pub use elf::Elf;
