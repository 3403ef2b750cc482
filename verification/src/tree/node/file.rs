//! Per-file disk usage, read from filesystem metadata.

use vstd::prelude::*;
use crate::errors::IOError;

verus! {

/// Relies on std::path::Path::metadata and the metadata's `len`: the size
/// in bytes that the filesystem reports for the entry at `path`, or the
/// reported failure as a description.
#[verifier::external_body]
pub fn get_file_size(path: &str) -> (r: Result<u64, IOError>)
    ensures
        r matches Err(e) ==> e is IO,
{
    match std::path::Path::new(path).metadata() {
        Ok(m) => Ok(m.len()),
        Err(e) => Err(IOError::IO(e.to_string())),
    }
}

} // verus!
