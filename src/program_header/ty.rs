use crate::bytes::{le_bytes, to_le, AsBytes};
use vstd::prelude::*;

verus! {

/// Segment type.
#[non_exhaustive]
pub enum Type {
    Null,
    Load,
    Dynamic,
    Interp,
    Note,
    Shlib,
    Phdr,
    Tls,
}

impl Type {
    pub open spec fn code(self) -> u32 {
        match self {
            Type::Null => 0,
            Type::Load => 1,
            Type::Dynamic => 2,
            Type::Interp => 3,
            Type::Note => 4,
            Type::Shlib => 5,
            Type::Phdr => 6,
            Type::Tls => 7,
        }
    }
}

impl AsBytes for Type {
    open spec fn encodable(&self) -> bool {
        true
    }

    open spec fn encoding(&self) -> Seq<u8> {
        le_bytes(self.code() as int, 4)
    }

    fn as_bytes(&self) -> (r: Vec<u8>) {
        let code: u32 = match self {
            Type::Null => 0,
            Type::Load => 1,
            Type::Dynamic => 2,
            Type::Interp => 3,
            Type::Note => 4,
            Type::Shlib => 5,
            Type::Phdr => 6,
            Type::Tls => 7,
        };
        to_le(code as u64, 4)
    }
}

} // verus!
