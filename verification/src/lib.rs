//! Resolution and orchestration core for chained compression formats.
//!
//! A file name such as `a.tar.gz.xz` implies an ordered chain of formats.
//! This crate parses that chain from the name, validates that it is legal
//! (at most one archive format, and only in the first position), reconciles
//! it against formats already present on an input file so nothing is applied
//! twice, resolves ambiguous or missing extensions against a content sniff,
//! and drives a stage-by-stage pipeline that guarantees cleanup of partial
//! output on failure.
//!
//! Chain ordering convention, used uniformly: index 0 is the leftmost
//! extension in the file name, i.e. the format applied first during
//! compression and undone last during decompression. An archive-capable
//! format is legal only at index 0.

pub mod archive;
pub mod commands;
pub mod error;
pub mod extension;
pub mod files;
pub mod format;
pub mod pipeline;
pub mod reconcile;
pub mod resolve;
pub mod validate;

pub use format::CompressionFormat;
