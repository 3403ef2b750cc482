//! Error conditions reported by tree construction and summarization.

use vstd::prelude::*;

verus! {

/// The failures a build or summarize pass can report.
#[derive(Debug, Clone)]
pub enum IOError {
    /// The supplied path does not exist at check time; carries the offending
    /// path as it was given.
    InvalidPath(String),
    /// A filesystem operation failed (metadata read, directory listing, or
    /// the tree grew past the traversal depth bound); carries a description.
    IO(String),
    /// `summarize` was called while no tree has been built yet.
    NotBuilt,
}

impl IOError {
    /// True when this error reports a nonexistent path.
    pub fn is_invalid_path(&self) -> (r: bool)
        ensures
            r == (self is InvalidPath),
    {
        match self {
            IOError::InvalidPath(_) => true,
            _ => false,
        }
    }
}

} // verus!
