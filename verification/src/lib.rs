//! Streaming search over line-delimited JSON archives.
//!
//! The library compiles `field:value` queries into a predicate over raw
//! record lines, groups lines into batches, evaluates the predicate over
//! whole batches, and tracks progress of a long-running scan. All of the
//! search logic is verified; reading the compressed archive and writing
//! matches to disk live in the surrounding application.

pub mod arguments;
pub mod casefold;
pub mod chunking;
pub mod constants;
pub mod laws;
pub mod line_processing;
pub mod progress;
pub mod query;
pub mod substring;
