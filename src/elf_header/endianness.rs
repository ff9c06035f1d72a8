use crate::bytes::AsBytes;
use vstd::prelude::*;

verus! {

/// Byte order of the target.
pub enum Endianness {
    LittleEndian,
    BigEndian,
}

impl AsBytes for Endianness {
    open spec fn encodable(&self) -> bool {
        true
    }

    open spec fn encoding(&self) -> Seq<u8> {
        match self {
            Endianness::LittleEndian => seq![1u8],
            Endianness::BigEndian => seq![2u8],
        }
    }

    fn as_bytes(&self) -> (r: Vec<u8>) {
        vec![
            match self {
                Endianness::LittleEndian => 1,
                Endianness::BigEndian => 2,
            },
        ]
    }
}

} // verus!
