//! The analysis core of a daemon that runs a C/C++ linter for an editor.
//!
//! - `position`: byte offsets to zero-based lines and UTF-16 columns.
//! - `output`, `fixes`: diagnostics from the analyzer's text output and fix document.
//! - `diagnostic`: merging the two channels, the per-file caps, the client form.
//! - `analysis`: the analyzer's command line, and the steps to the client's result.
//! - `command`, `index`: compile-database entries, shell splitting, shadow entries.
//! - `cache`: fingerprints, disk cache names and eviction, the in-memory tier.
//! - `paths`, `uri`: path resolution, configuration and cache-directory discovery.
//! - `dispatch`, `schedule`: request routing, batches, progress, cancellation.
//! - `text`: string building and comparison.
pub mod position;
pub mod text;
pub mod diagnostic;
pub mod command;
pub mod paths;
pub mod output;
pub mod fixes;
pub mod cache;
pub mod analysis;
pub mod index;
pub mod schedule;
pub mod uri;
pub mod dispatch;
