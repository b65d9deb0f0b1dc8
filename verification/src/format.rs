//! The finite set of recognized compression and archive formats.

use vstd::prelude::*;

verus! {

/// Canonical identifier of one compression or archive format.
#[derive(Clone, Copy, Debug, PartialEq, Eq, Structural)]
pub enum CompressionFormat {
    /// Tape archive: bundles multiple entries.
    Tar,
    /// Zip container: bundles multiple entries, needs random access.
    Zip,
    /// Gzip stream compression.
    Gzip,
    /// Bzip2 stream compression.
    Bzip2,
    /// Lz4 stream compression.
    Lz4,
    /// Xz / Lzma stream compression.
    Xz,
    /// Zstandard stream compression.
    Zstd,
}

/// An archive-capable format bundles multiple entries into one payload;
/// every other format compresses a single byte stream.
pub open spec fn spec_is_archive(f: CompressionFormat) -> bool {
    f == CompressionFormat::Tar || f == CompressionFormat::Zip
}

impl CompressionFormat {
    /// Whether this format can bundle multiple entries.
    pub fn is_archive_format(self) -> (r: bool)
        ensures
            r == spec_is_archive(self),
    {
        match self {
            CompressionFormat::Tar => true,
            CompressionFormat::Zip => true,
            _ => false,
        }
    }
}

} // verus!
