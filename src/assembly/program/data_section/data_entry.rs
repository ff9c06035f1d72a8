use crate::bytes::AsBytes;
use vstd::prelude::*;
use vstd::utf8::encode_utf8;

verus! {

/// A named piece of data; its bytes are the UTF-8 form of the value.
#[derive(Clone)]
pub struct DataEntry {
    key: String,
    value: String,
}

impl DataEntry {
    pub closed spec fn spec_key(&self) -> String {
        self.key
    }

    pub closed spec fn spec_value(&self) -> String {
        self.value
    }

    pub fn new(key: String, value: String) -> (r: Self)
        ensures
            r.spec_key() == key,
            r.spec_value() == value,
    {
        DataEntry { key, value }
    }

    pub fn key(&self) -> (r: &str)
        ensures
            r@ == self.spec_key()@,
    {
        self.key.as_str()
    }

    pub fn value(&self) -> (r: &str)
        ensures
            r@ == self.spec_value()@,
    {
        self.value.as_str()
    }

    pub fn key_string(&self) -> (r: String)
        ensures
            r == self.spec_key(),
    {
        self.key.clone()
    }

    /// Number of bytes of the value.
    pub fn len(&self) -> (r: usize)
        ensures
            r == self.encoding().len(),
    {
        self.value.as_str().as_bytes().len()
    }
}

impl AsBytes for DataEntry {
    open spec fn encodable(&self) -> bool {
        true
    }

    open spec fn encoding(&self) -> Seq<u8> {
        encode_utf8(self.spec_value()@)
    }

    fn as_bytes(&self) -> (r: Vec<u8>) {
        let bytes: &[u8] = self.value.as_str().as_bytes();
        AsBytes::as_bytes(bytes)
    }
}

} // verus!
