//! The message that announces a written file on the queue.
use vstd::prelude::*;

verus! {

/// A written file: the table it belongs to, where it is stored, its size in
/// bytes and the number of records it holds.
pub struct FileMetadata {
    pub table: String,
    pub uri: String,
    pub size: i64,
    pub count: i64,
}

impl FileMetadata {
    /// Metadata with empty names and zero size and count.
    pub fn new() -> (m: Self)
        ensures
            m.table@ == Seq::<char>::empty(),
            m.uri@ == Seq::<char>::empty(),
            m.size == 0,
            m.count == 0,
    {
        FileMetadata { table: String::new(), uri: String::new(), size: 0, count: 0 }
    }

    /// This metadata with another table.
    pub fn with_table(self, table: &str) -> (m: Self)
        ensures
            m.table@ == table@,
            m.uri == self.uri,
            m.size == self.size,
            m.count == self.count,
    {
        let mut m = self;
        m.table = table.to_owned();
        m
    }

    /// This metadata with another location.
    pub fn with_uri(self, uri: &str) -> (m: Self)
        ensures
            m.table == self.table,
            m.uri@ == uri@,
            m.size == self.size,
            m.count == self.count,
    {
        let mut m = self;
        m.uri = uri.to_owned();
        m
    }

    /// This metadata with another size.
    pub fn with_size(self, size: i64) -> (m: Self)
        ensures
            m.table == self.table,
            m.uri == self.uri,
            m.size == size,
            m.count == self.count,
    {
        let mut m = self;
        m.size = size;
        m
    }

    /// This metadata with another record count.
    pub fn with_count(self, count: i64) -> (m: Self)
        ensures
            m.table == self.table,
            m.uri == self.uri,
            m.size == self.size,
            m.count == count,
    {
        let mut m = self;
        m.count = count;
        m
    }
}

} // verus!
