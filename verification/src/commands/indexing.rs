//! Indexing requests: the status shown and the checks before a scan starts.
use vstd::prelude::*;
use crate::text::{owned, push_str};

verus! {

/// The indexing status: files known, files indexed, and whether a scan runs.
pub struct IndexStatus {
    pub total_files: i64,
    pub indexed_files: i64,
    pub is_scanning: bool,
}

/// Whether a scan of `path` may start: not while another scan runs, and
/// only for an existing directory. The error says which check failed.
pub fn scan_request(is_scanning: bool, is_dir: bool, path: &str) -> (r: Result<(), String>)
    ensures
        is_scanning ==> (r matches Err(e) && e@ == "A scan is already in progress"@),
        !is_scanning && !is_dir ==> (r matches Err(e) && e@ == "Path does not exist or is not a directory: "@ + path@),
        !is_scanning && is_dir ==> r is Ok,
{
    if is_scanning {
        return Err(owned("A scan is already in progress"));
    }
    if !is_dir {
        let mut e = owned("Path does not exist or is not a directory: ");
        push_str(&mut e, path);
        return Err(e);
    }
    Ok(())
}

/// The answer to a scan request once the scan has started.
pub fn scan_started(path: &str) -> (r: String)
    ensures
        r@ == "Scan started for: "@ + path@,
{
    let mut r = owned("Scan started for: ");
    push_str(&mut r, path);
    r
}

} // verus!
