use crate::bytes::AsBytes;
use vstd::prelude::*;

mod data_entry;

pub use data_entry::DataEntry;

verus! {

/// The bytes of the entries, concatenated in order.
pub open spec fn data_bytes(entries: Seq<DataEntry>) -> Seq<u8>
    decreases entries.len(),
{
    if entries.len() == 0 {
        Seq::empty()
    } else {
        data_bytes(entries.drop_last()) + entries.last().encoding()
    }
}

/// The total size of the entries.
pub open spec fn data_len(entries: Seq<DataEntry>) -> int {
    data_bytes(entries).len() as int
}

/// An ordered data segment: named entries laid out one after the other.
#[derive(Clone)]
pub struct DataSection {
    data: Vec<DataEntry>,
}

impl DataSection {
    pub closed spec fn entries(&self) -> Seq<DataEntry> {
        self.data@
    }

    /// Each key with the address of its entry: `base` plus the sizes of the
    /// entries before it.
    pub open spec fn address_table(&self, base: int) -> Seq<(String, u32)> {
        Seq::new(
            self.entries().len(),
            |i: int|
                (self.entries()[i].spec_key(), (base + data_len(self.entries().take(i))) as u32),
        )
    }

    pub fn new() -> (r: Self)
        ensures
            r.entries() == Seq::<DataEntry>::empty(),
    {
        DataSection { data: Vec::new() }
    }

    /// The entries in insertion order.
    pub fn entries_slice(&self) -> (r: &[DataEntry])
        ensures
            r@ == self.entries(),
    {
        self.data.as_slice()
    }

    /// Appends an entry; insertion order is kept.
    pub fn insert(&mut self, key: String, value: String)
        ensures
            final(self).entries().len() == old(self).entries().len() + 1,
            final(self).entries().drop_last() == old(self).entries(),
            final(self).entries().last().spec_key() == key,
            final(self).entries().last().spec_value() == value,
    {
        let entry = DataEntry::new(key, value);
        self.data.push(entry);
        assert(self.data@.drop_last() =~= old(self).data@);
    }

    /// The address of each entry when the section starts at `start_addr`.
    pub fn addresses(&self, start_addr: u32) -> (r: Vec<(String, u32)>)
        requires
            start_addr + data_len(self.entries()) <= u32::MAX,
        ensures
            r@ == self.address_table(start_addr as int),
    {
        let mut map: Vec<(String, u32)> = Vec::new();
        let mut len: u32 = 0;
        let mut i: usize = 0;
        while i < self.data.len()
            invariant
                i <= self.data@.len(),
                start_addr + data_len(self.data@) <= u32::MAX,
                len == data_len(self.data@.take(i as int)),
                map@ == self.address_table(start_addr as int).take(i as int),
            decreases self.data@.len() - i,
        {
            let entry = &self.data[i];
            proof {
                lemma_data_len_prefix(self.data@, i as int + 1);
                assert(self.data@.take(i as int + 1).drop_last() =~= self.data@.take(i as int));
            }
            map.push((entry.key_string(), start_addr + len));
            len = len + entry.len() as u32;
            i = i + 1;
            assert(map@ =~= self.address_table(start_addr as int).take(i as int));
        }
        assert(self.address_table(start_addr as int).take(i as int) =~= self.address_table(
            start_addr as int,
        ));
        map
    }
}

/// A prefix of the entries takes no more room than all of them.
pub proof fn lemma_data_len_prefix(entries: Seq<DataEntry>, i: int)
    requires
        0 <= i <= entries.len(),
    ensures
        data_len(entries.take(i)) <= data_len(entries),
    decreases entries.len(),
{
    if i < entries.len() {
        assert(entries.take(i) =~= entries.drop_last().take(i));
        lemma_data_len_prefix(entries.drop_last(), i);
    } else {
        assert(entries.take(i) =~= entries);
    }
}

impl AsBytes for DataSection {
    open spec fn encodable(&self) -> bool {
        true
    }

    open spec fn encoding(&self) -> Seq<u8> {
        data_bytes(self.entries())
    }

    fn as_bytes(&self) -> (r: Vec<u8>) {
        let mut out: Vec<u8> = Vec::new();
        let mut i: usize = 0;
        while i < self.data.len()
            invariant
                i <= self.data@.len(),
                out@ == data_bytes(self.data@.take(i as int)),
            decreases self.data@.len() - i,
        {
            let mut bytes = self.data[i].as_bytes();
            out.append(&mut bytes);
            proof {
                assert(self.data@.take(i as int + 1).drop_last() =~= self.data@.take(i as int));
            }
            i = i + 1;
        }
        assert(self.data@.take(i as int) =~= self.data@);
        out
    }
}

} // verus!
