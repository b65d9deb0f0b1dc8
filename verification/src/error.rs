//! Structured, diagnostic-carrying errors.
//!
//! Every validation failure is detected before any destructive work and
//! carries a human-readable title, detail lines, and actionable hint lines.

use vstd::prelude::*;

verus! {

/// The kind of a failure, one variant per distinct condition.
#[derive(Clone, Copy, Debug, PartialEq, Eq, Structural)]
pub enum ErrorKind {
    /// The output path carries no recognized extension at all.
    EmptyChain,
    /// The chain's first format cannot bundle the several inputs given.
    MultiFileNeedsArchive,
    /// An archive-capable format stands anywhere but first in the chain.
    ArchiveFormatMisplaced,
    /// A decompression or listing input has no detectable chain.
    MissingExtension,
    /// Listing was requested on a chain that is not an archive.
    NotAnArchive,
    /// A codec reported malformed or truncated data.
    CodecFailure,
    /// A filesystem-level failure.
    IoFailure,
    /// A failure, compounded by failing to delete the partial output.
    CleanupFailure,
}

/// A diagnostic error: a kind, a title, detail lines and hint lines.
pub struct FinalError {
    pub kind: ErrorKind,
    pub title: String,
    pub details: Vec<String>,
    pub hints: Vec<String>,
}

/// The views of a sequence of strings.
pub open spec fn texts_of(v: Seq<String>) -> Seq<Seq<char>> {
    v.map_values(|s: String| s@)
}

impl FinalError {
    /// A new error of the given kind with a title and nothing else yet.
    pub fn with_title(kind: ErrorKind, title: String) -> (r: FinalError)
        ensures
            r.kind == kind,
            r.title@ == title@,
            r.details@.len() == 0,
            r.hints@.len() == 0,
    {
        FinalError { kind, title, details: Vec::new(), hints: Vec::new() }
    }

    /// Appends one detail line.
    pub fn detail(self, d: String) -> (r: FinalError)
        ensures
            r.kind == self.kind,
            r.title@ == self.title@,
            r.details@ == self.details@.push(d),
            r.hints@ == self.hints@,
    {
        let mut s = self;
        s.details.push(d);
        s
    }

    /// Appends one hint line.
    pub fn hint(self, h: String) -> (r: FinalError)
        ensures
            r.kind == self.kind,
            r.title@ == self.title@,
            r.details@ == self.details@,
            r.hints@ == self.hints@.push(h),
    {
        let mut s = self;
        s.hints.push(h);
        s
    }
}

} // verus!
