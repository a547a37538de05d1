//! The records kept in the database.
use vstd::prelude::*;

verus! {

/// An indexed file. `index_status` is `pending`, `indexed` or `failed`.
#[derive(Debug)]
pub struct FileRecord {
    pub id: Option<i64>,
    pub path: String,
    pub filename: String,
    pub extension: String,
    pub size_bytes: i64,
    pub modified_at: String,
    pub created_at: String,
    pub blake3_hash: String,
    pub index_status: String,
    pub drive: String,
}

/// A key/value pair attached to a file.
#[derive(Debug)]
pub struct FileMetadata {
    pub id: Option<i64>,
    pub file_id: i64,
    pub key: String,
    pub value: String,
}

/// A scanned drive.
#[derive(Debug)]
pub struct DriveRecord {
    pub id: Option<i64>,
    pub path: String,
    pub label: String,
    pub total_bytes: i64,
    pub free_bytes: i64,
    pub last_scanned: Option<String>,
}

/// A chat session, optionally tied to a provider.
#[derive(Debug)]
pub struct ChatSession {
    pub id: Option<i64>,
    pub title: String,
    pub provider_id: Option<i64>,
    pub created_at: String,
    pub updated_at: String,
}

/// A stored chat message. `attached_files` and `tool_calls` hold JSON arrays.
#[derive(Debug)]
pub struct ChatMessage {
    pub id: Option<i64>,
    pub session_id: i64,
    pub role: String,
    pub content: String,
    pub attached_files: String,
    pub tool_calls: String,
    pub created_at: String,
}

} // verus!
