//! Extraction of container archives into a destination directory, with the
//! decisions of each step (where an entry goes, whether an existing file is
//! overwritten, what the caller gets back) stated and proved.
pub mod decompressor;
pub mod overwrite;
pub mod paths;
pub mod semantics;
pub mod tar;
