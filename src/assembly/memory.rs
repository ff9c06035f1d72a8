use crate::bytes::{le_bytes, AsBytes};
use vstd::prelude::*;

verus! {

/// A memory reference: a label and the 32-bit displacement it resolves to.
///
/// An empty label means that `addr` is already final; a non-empty one is
/// filled in by back-patching.
#[derive(Debug, Clone)]
pub struct Memory {
    pub addr: i32,
    pub label: String,
}

impl Memory {
    pub fn label(&self) -> (r: &str)
        ensures
            r@ == self.label@,
    {
        self.label.as_str()
    }

    pub fn set_addr(&mut self, addr: i32)
        ensures
            final(self).addr == addr,
            final(self).label == old(self).label,
    {
        self.addr = addr;
    }
}

impl AsBytes for Memory {
    open spec fn encodable(&self) -> bool {
        true
    }

    open spec fn encoding(&self) -> Seq<u8> {
        le_bytes(self.addr as int, 4)
    }

    fn as_bytes(&self) -> (r: Vec<u8>) {
        self.addr.as_bytes()
    }
}

impl From<&str> for Memory {
    fn from(value: &str) -> (r: Self)
        ensures
            r.addr == 0,
            r.label@ == value@,
    {
        Memory { addr: 0, label: value.to_owned() }
    }
}

impl vstd::std_specs::convert::FromSpecImpl<&str> for Memory {
    open spec fn obeys_from_spec() -> bool {
        false
    }

    open spec fn from_spec(v: &str) -> Self {
        arbitrary()
    }
}

impl From<String> for Memory {
    fn from(label: String) -> (r: Self) {
        Memory { addr: 0, label }
    }
}

impl vstd::std_specs::convert::FromSpecImpl<String> for Memory {
    open spec fn obeys_from_spec() -> bool {
        true
    }

    open spec fn from_spec(v: String) -> Self {
        Memory { addr: 0, label: v }
    }
}

} // verus!
