//! Document requests: the answers to opening a file and to asking for its record.
use vstd::prelude::*;
use crate::text::{owned, push_str};

verus! {

/// `prefix` followed by `path`.
fn with_path(prefix: &str, path: &str) -> (r: String)
    ensures
        r@ == prefix@ + path@,
{
    let mut r = owned(prefix);
    push_str(&mut r, path);
    r
}

/// The error for a file that does not exist.
pub fn file_not_found(path: &str) -> (r: String)
    ensures
        r@ == "File not found: "@ + path@,
{
    with_path("File not found: ", path)
}

/// The answer once a file was handed to the system's default application.
pub fn opened(path: &str) -> (r: String)
    ensures
        r@ == "Opened: "@ + path@,
{
    with_path("Opened: ", path)
}

/// The error when the default application could not be started.
pub fn open_failed(reason: &str) -> (r: String)
    ensures
        r@ == "Failed to open file: "@ + reason@,
{
    with_path("Failed to open file: ", reason)
}

/// The error for a path with no file record.
pub fn no_record(path: &str) -> (r: String)
    ensures
        r@ == "No record found for path: "@ + path@,
{
    with_path("No record found for path: ", path)
}

} // verus!
