//! Typed x86-64 instructions and their machine encoding.

mod error;
mod immediate;
mod instruction;
mod memory;
mod mnemonic;
mod operand;
mod program;
mod register;

pub use error::AsmError;
pub use immediate::Immediate;
pub use instruction::{reg_field, Either, Instruction, RexPrefix};
pub use memory::Memory;
pub use mnemonic::{
    branch_form, digit_form, imm_opcode, lemma_rex_discipline, lemma_rex_extension_bits,
    lemma_stable_size, lemma_with_addr_same_shape, operand_shape, reg_form, rex, Mnemonic,
};
pub use operand::Operand;
pub use program::{
    all_supported, code_bytes, code_size, data_bytes, data_len, label_table, last_match,
    lemma_backpatch_sound, lemma_code_size_prefix, lemma_data_len_prefix, lemma_resolved_same_sizes,
    needs_patch, resolve, DataEntry, DataSection, Program,
};
pub use register::Register;
