//! Resolves (artist, track) pairs against song-search results: text
//! normalization, the candidate matcher, the lookup request and response
//! policy, and the per-record worker step of the crawl pipeline.

pub mod lookup;
pub mod matcher;
pub mod pipeline;
pub mod text;
pub mod types;
