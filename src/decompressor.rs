//! What a decompression is handed and what it hands back.
use vstd::prelude::*;

verus! {

/// An input to decompress: a path, and possibly the bytes themselves.
/// When `contents_in_memory` is present it is the data, and `path` only
/// names it.
pub struct File {
    pub path: String,
    pub contents_in_memory: Option<Vec<u8>>,
}

/// The outcome of a decompression.
pub enum DecompressionResult {
    /// The files written, in resolved form, in the order of the archive.
    FilesUnpacked(Vec<String>),
    /// A single decompressed stream kept in memory.
    FileInMemory(Vec<u8>),
}

/// The directory that a decompression writes into: the one named, or else
/// the current directory.
pub open spec fn destination_of(into: Option<File>) -> Seq<char> {
    match into {
        Some(f) => f.path@,
        None => "."@,
    }
}

impl File {
    /// A file to be read from disk.
    pub fn from_path(path: String) -> (r: File)
        ensures
            r.path@ == path@,
            r.contents_in_memory is None,
    {
        File { path, contents_in_memory: None }
    }

    /// A file whose bytes are already in memory; `path` only names it.
    pub fn in_memory(path: String, bytes: Vec<u8>) -> (r: File)
        ensures
            r.path@ == path@,
            r.contents_in_memory == Some(bytes),
    {
        File { path, contents_in_memory: Some(bytes) }
    }
}

/// Resolves the optional destination to the directory to extract into.
pub fn destination_path(into: &Option<File>) -> (r: String)
    ensures
        r@ == destination_of(*into),
{
    match into {
        Some(f) => f.path.clone(),
        None => ".".to_owned(),
    }
}

} // verus!
