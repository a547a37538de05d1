//! What the user-facing commands decide and answer.
pub mod search;
pub mod ai;
pub mod document;
pub mod indexing;
