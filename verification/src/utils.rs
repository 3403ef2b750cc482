//! Path validation and session-id generation.

use vstd::prelude::*;
use crate::errors::IOError;

verus! {

/// Relies on uuid::Uuid::new_v4 and uuid's Display impl: a fresh version-4
/// UUID rendered in the hyphenated form, which is always 36 characters.
/// Like any caller of the OS random source, it aborts if that source fails;
/// no input can reach or avoid that condition.
#[verifier::external_body]
pub fn generate_id() -> (r: String)
    ensures
        r@.len() == 36,
{
    uuid::Uuid::new_v4().to_string()
}

/// Relies on std's Into: the argument converted into an owned String.
#[verifier::external_body]
pub(crate) fn into_string<S: Into<String>>(s: S) -> String {
    s.into()
}

/// Relies on std::time::SystemTime::now: the current time in milliseconds
/// since the Unix epoch (zero if the clock reads earlier than the epoch).
#[verifier::external_body]
pub(crate) fn now_millis() -> u64 {
    match std::time::SystemTime::now().duration_since(std::time::SystemTime::UNIX_EPOCH) {
        Ok(d) => d.as_millis() as u64,
        Err(_) => 0,
    }
}

/// Relies on std::path::Path::exists: whether the path exists on disk at the
/// moment of the call (false as well when existence cannot be determined).
#[verifier::external_body]
pub(crate) fn path_exists(path: &str) -> bool {
    std::path::Path::new(path).exists()
}

/// Relies on std::path::Path::canonicalize: the absolute, symlink-resolved
/// form of the path, or the reported failure as a description.
#[verifier::external_body]
pub(crate) fn canonicalize_path(path: &str) -> (r: Result<String, IOError>)
    ensures
        r matches Err(e) ==> e is IO,
{
    match std::path::Path::new(path).canonicalize() {
        Ok(p) => Ok(p.to_string_lossy().to_string()),
        Err(e) => Err(IOError::IO(e.to_string())),
    }
}

/// Checks that `target` names an existing filesystem entry. Existence is
/// checked first; only then is the path resolved to its canonical absolute
/// form. A nonexistent path is rejected as `InvalidPath` carrying the input.
pub fn check_path(target: &str) -> (r: Result<String, IOError>)
    ensures
        r matches Err(e) ==> match e {
            IOError::InvalidPath(p) => p@ == target@,
            IOError::IO(_) => true,
            IOError::NotBuilt => false,
        },
{
    if !path_exists(target) {
        Err(IOError::InvalidPath(target.to_owned()))
    } else {
        canonicalize_path(target)
    }
}

} // verus!
