//! The items most programs need.

pub use crate::bytes::AsBytes;
pub use crate::elf::Elf;
