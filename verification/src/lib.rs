//! Verified core of an LLM response cache backed by Valkey: decoding of
//! vector-search replies, the stored embedding format, the commands the cache
//! sends, and the decisions of its fetch paths.
pub mod adjudicate;
pub mod commands;
pub mod embedding;
pub mod fetch;
pub mod resp;
pub mod search;


pub use adjudicate::AdjudicateRequest;
pub use search::{SearchDocument, ValkeySearchResult};
