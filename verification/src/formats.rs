use vstd::prelude::*;

verus! {

/// The file formats that the pipeline can read.
#[derive(Debug, Copy, Clone)]
pub enum FileFormat {
    CSV,
}

/// How the incoming object is compressed.
#[derive(Debug, Copy, Clone)]
pub enum Compression {
    /// The object is gzip-compressed.
    GZip,
    /// The object is read as it is stored.
    Uncompressed,
}

} // verus!
