use crate::bytes::AsBytes;
use vstd::prelude::*;

verus! {

/// Word size of the target.
pub enum Class {
    Bits32,
    Bits64,
}

impl AsBytes for Class {
    open spec fn encodable(&self) -> bool {
        true
    }

    open spec fn encoding(&self) -> Seq<u8> {
        match self {
            Class::Bits32 => seq![1u8],
            Class::Bits64 => seq![2u8],
        }
    }

    fn as_bytes(&self) -> (r: Vec<u8>) {
        vec![
            match self {
                Class::Bits32 => 1,
                Class::Bits64 => 2,
            },
        ]
    }
}

} // verus!
