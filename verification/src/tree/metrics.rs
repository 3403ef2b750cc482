//! The metric source the aggregation pass reads leaves through.
//!
//! Aggregation only needs, for a file path, its disk size and its text-line
//! count; both reads are best-effort (a failure makes the node contribute
//! zero). The source is a trait so that a caller with richer filesystem
//! access — or a test with a scripted filesystem — can supply its own.

use vstd::prelude::*;
use crate::errors::IOError;
use crate::tree::node::file::get_file_size;

verus! {

/// Per-file metric readings for the aggregation pass. Both operations read
/// the state of an external filesystem, so nothing is promised of their
/// results.
pub trait FileMetrics {
    /// The on-disk size of the file at `path`, in bytes.
    fn size(&self, path: &str) -> Result<u64, IOError>;

    /// The number of text lines of the file at `path`.
    fn line_count(&self, path: &str) -> Result<u64, IOError>;
}

/// The default source: sizes come from the local disk's file metadata. File
/// text is not read inside this crate, so the line metric reports a failure
/// here and aggregation records zero for it; a caller that can read file
/// contents supplies its own [`FileMetrics`] with the real count.
pub struct DiskMetrics;

impl FileMetrics for DiskMetrics {
    fn size(&self, path: &str) -> Result<u64, IOError> {
        get_file_size(path)
    }

    fn line_count(&self, path: &str) -> Result<u64, IOError> {
        Err(IOError::IO("line metric is not read from disk here".to_owned()))
    }
}

} // verus!
