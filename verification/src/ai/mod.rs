//! Chat, retrieval and agent logic around large-language-model providers.
pub mod provider;
pub mod streaming;
pub mod calc;
pub mod tools;
pub mod agent;
pub mod chat;
pub mod rag;
