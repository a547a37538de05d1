//! The per-file decisions of the indexing pipeline and its progress count.
use vstd::prelude::*;
use crate::db::models::FileRecord;
use crate::extractors::plaintext::{file_extension, lowercase_extension};
use crate::paths::{file_name, file_name_of, first_component, first_component_of};
use crate::text::{owned, same_text};

verus! {

/// Progress information returned after a scan completes.
pub struct ScanProgress {
    pub total_discovered: u64,
    pub indexed: u64,
    pub failed: u64,
}

/// Number of `true` entries of `s`.
pub open spec fn count_true(s: Seq<bool>) -> nat
    decreases s.len(),
{
    if s.len() == 0 {
        0
    } else {
        count_true(s.drop_last()) + if s.last() { 1nat } else { 0nat }
    }
}

/// The progress of a scan whose files were processed with the given
/// outcomes (success, including files already up to date, or failure).
pub fn scan_progress(outcomes: &Vec<bool>) -> (p: ScanProgress)
    requires
        outcomes@.len() <= u64::MAX,
    ensures
        p.total_discovered == outcomes@.len(),
        p.indexed == count_true(outcomes@),
        p.failed == outcomes@.len() - count_true(outcomes@),
{
    let mut p = ScanProgress { total_discovered: outcomes.len() as u64, indexed: 0, failed: 0 };
    let mut i: usize = 0;
    while i < outcomes.len()
        invariant
            i <= outcomes@.len(),
            outcomes@.len() <= u64::MAX,
            p.total_discovered == outcomes@.len(),
            p.indexed == count_true(outcomes@.take(i as int)),
            p.indexed + p.failed == i,
        decreases outcomes@.len() - i,
    {
        proof {
            assert(outcomes@.take(i + 1).drop_last() == outcomes@.take(i as int));
        }
        if outcomes[i] {
            p.indexed = p.indexed + 1;
        } else {
            p.failed = p.failed + 1;
        }
        i = i + 1;
    }
    assert(outcomes@.take(outcomes@.len() as int) == outcomes@);
    p
}

/// What `blake3::hash(bytes).to_hex()` writes for `bytes`.
pub uninterp spec fn blake3_hex_of(bytes: Seq<u8>) -> Seq<char>;

/// A lower-case hexadecimal digit.
pub open spec fn is_hex_lower(c: char) -> bool {
    ('0' <= c && c <= '9') || ('a' <= c && c <= 'f')
}

/// `blake3::hash` of `bytes`, written with `Hash::to_hex`. The result is
/// named; the documentation of `to_hex` (lower-case hexadecimal of the
/// 32-byte hash) gives its length and its digits.
#[verifier::external_body]
pub fn blake3_hex(bytes: &[u8]) -> (r: String)
    ensures
        r@ == blake3_hex_of(bytes@),
        r@.len() == 64,
        forall|i: int| 0 <= i < 64 ==> is_hex_lower(#[trigger] r@[i]),
{
    blake3::hash(bytes).to_hex().to_string()
}

/// What chrono writes for the UTC time `secs` seconds and `nanos`
/// nanoseconds after the Unix epoch, in the form `%Y-%m-%dT%H:%M:%SZ`, or
/// nothing when chrono does not represent that time.
pub uninterp spec fn utc_text(secs: i64, nanos: u32) -> Option<Seq<char>>;

/// chrono's `DateTime::<Utc>::from_timestamp` and `format` with
/// `%Y-%m-%dT%H:%M:%SZ`; the result is named.
#[verifier::external_body]
pub fn format_utc(secs: i64, nanos: u32) -> (r: Option<String>)
    ensures
        match r {
            Some(t) => utc_text(secs, nanos) == Some(t@),
            None => utc_text(secs, nanos) is None,
        },
{
    chrono::DateTime::<chrono::Utc>::from_timestamp(secs, nanos).map(|dt| dt.format("%Y-%m-%dT%H:%M:%SZ").to_string())
}

/// The recorded text of a file time (seconds and nanoseconds after the
/// epoch), or the empty text when the time is unknown.
pub open spec fn time_text(time: Option<(i64, u32)>) -> Seq<char> {
    match time {
        Some((s, n)) => match utc_text(s, n) {
            Some(t) => t,
            None => Seq::empty(),
        },
        None => Seq::empty(),
    }
}

/// The recorded text of a file time.
pub fn file_time_text(time: Option<(i64, u32)>) -> (r: String)
    ensures
        r@ == time_text(time),
{
    match time {
        Some((s, n)) => match format_utc(s, n) {
            Some(t) => t,
            None => String::new(),
        },
        None => String::new(),
    }
}

/// The text of an optional part of a path, or the empty text.
pub open spec fn or_empty(t: Option<Seq<char>>) -> Seq<char> {
    match t {
        Some(x) => x,
        None => Seq::empty(),
    }
}

/// The record of a file about to be indexed, from its path, size, times and
/// contents: its name, lower-cased extension, content hash, and the first
/// component of its path as its drive; no id yet, status `pending`.
pub fn file_record(path: &str, size_bytes: i64, modified: Option<(i64, u32)>, created: Option<(i64, u32)>, contents: &[u8]) -> (r: FileRecord)
    ensures
        r.id is None,
        r.path@ == path@,
        r.filename@ == or_empty(file_name_of(path@)),
        r.extension@ == lowercase_extension(path@),
        r.size_bytes == size_bytes,
        r.modified_at@ == time_text(modified),
        r.created_at@ == time_text(created),
        r.blake3_hash@ == blake3_hex_of(contents@),
        r.index_status@ == "pending"@,
        r.drive@ == or_empty(first_component_of(path@)),
{
    let filename = match file_name(path) {
        Some(n) => n,
        None => String::new(),
    };
    let drive = match first_component(path) {
        Some(c) => c,
        None => String::new(),
    };
    FileRecord {
        id: None,
        path: owned(path),
        filename,
        extension: file_extension(path),
        size_bytes,
        modified_at: file_time_text(modified),
        created_at: file_time_text(created),
        blake3_hash: blake3_hex(contents),
        index_status: owned("pending"),
        drive,
    }
}

/// A file needs no work: it is recorded with the same hash and was indexed.
pub open spec fn up_to_date(existing: Option<FileRecord>, hash: Seq<char>) -> bool {
    match existing {
        Some(e) => e.blake3_hash@ == hash && e.index_status@ == "indexed"@,
        None => false,
    }
}

/// Whether the recorded file is already indexed with the same contents.
pub fn is_up_to_date(existing: &Option<FileRecord>, hash: &str) -> (r: bool)
    ensures
        r == up_to_date(*existing, hash@),
{
    match existing {
        Some(e) => same_text(e.blake3_hash.as_str(), hash) && same_text(e.index_status.as_str(), "indexed"),
        None => false,
    }
}

/// The status a file gets once extraction has run: `indexed` on success,
/// `failed` otherwise.
pub fn status_after_extraction(extracted: bool) -> (r: &'static str)
    ensures
        extracted ==> r@ == "indexed"@,
        !extracted ==> r@ == "failed"@,
{
    if extracted { "indexed" } else { "failed" }
}

} // verus!
