//! The archive-bundling side of the codec boundary.
//!
//! The actual tar bytes are produced outside this crate; here stands the
//! compressor's decision surface: what an archive stage consumes, and the
//! case it rejects outright.

use vstd::prelude::*;

use crate::error::{ErrorKind, FinalError};

verus! {

/// What a codec stage consumes: a list of filesystem paths to bundle, or
/// an in-memory buffer already produced by an earlier stage. The split
/// exists because some codecs cannot consume a stream and must see their
/// whole input at once.
pub enum Entry {
    Files(Vec<String>),
    InMemory(Vec<u8>),
}

/// The tar bundling stage.
pub struct TarCompressor {}

/// The text rejecting a tar stage fed from memory.
pub open spec fn tar_from_memory_rejection() -> Seq<char> {
    ".tar.tar and .zip.tar is currently unimplemented."@
}

impl TarCompressor {
    /// Bundling an in-memory payload into a tar archive is not supported:
    /// every such request is rejected with a codec failure.
    pub fn make_archive_from_memory(_input: &Vec<u8>) -> (r: Result<Vec<u8>, FinalError>)
        ensures
            r is Err,
            r->Err_0.kind == ErrorKind::CodecFailure,
            r->Err_0.title@ == tar_from_memory_rejection(),
    {
        Err(
            FinalError::with_title(
                ErrorKind::CodecFailure,
                String::from_str(".tar.tar and .zip.tar is currently unimplemented."),
            ),
        )
    }

    /// Whether this stage can take the given entry at all: a tar stage
    /// bundles paths; an in-memory payload is the unsupported case above.
    pub fn accepts(&self, from: &Entry) -> (r: bool)
        ensures
            r == (from is Files),
    {
        matches!(from, Entry::Files(_))
    }
}

} // verus!
