//! The indexer: which files a scan picks up, and the records it writes.
pub mod pipeline;
pub mod scanner;
