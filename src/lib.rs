//! Multi-language source inventory and metrics.
//!
//! Given the text of a source file, an extractor for its language reports the
//! file's line statistics, its types, functions and imports, and a complexity
//! score, by lightweight word-boundary-aware scanning. Directory results sum
//! the per-file statistics, and sessions answer queries from cached results.
pub mod scan;
pub mod lines;
pub mod text;
pub mod types;
pub mod extract;
pub mod rules;
pub mod analyzers;
pub mod utils;
pub mod directory;
pub mod cycles;
pub mod session;
pub mod registry;
pub mod processing;
pub mod universal;
