use crate::bytes::AsBytes;
use vstd::prelude::*;

verus! {

/// Object file type.
#[non_exhaustive]
pub enum Type {
    Unknown,
    Relocatable,
    Executable,
    SharedObject,
    Core,
}

impl Type {
    pub open spec fn code(self) -> u8 {
        match self {
            Type::Unknown => 0,
            Type::Relocatable => 1,
            Type::Executable => 2,
            Type::SharedObject => 3,
            Type::Core => 4,
        }
    }
}

impl AsBytes for Type {
    open spec fn encodable(&self) -> bool {
        true
    }

    open spec fn encoding(&self) -> Seq<u8> {
        seq![self.code(), 0x00u8]
    }

    fn as_bytes(&self) -> (r: Vec<u8>) {
        let code: u8 = match self {
            Type::Unknown => 0,
            Type::Relocatable => 1,
            Type::Executable => 2,
            Type::SharedObject => 3,
            Type::Core => 4,
        };
        vec![code, 0x00]
    }
}

} // verus!
