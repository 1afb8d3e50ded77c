//! A configurable text linter: rules are declared in a TOML document, each
//! pairing a search pattern with a severity, a diagnostic message and an
//! optional file-type filter. Given candidate files, the crate decides which
//! rules may scan each file, matches content line by line, and emits
//! records, paths or diagnostics, according to the chosen output mode.
//!
//! The rule compiler, the file-type filter, the file selector and the scan
//! aggregator are verified: their contracts state exactly what is compiled,
//! matched and emitted. The TOML parser, the glob engine and the regex
//! engine are outside crates, reached through a few narrow trusted
//! declarations.

pub mod args;
pub mod config;
pub mod errors;
pub mod lints;
pub mod pattern;
pub mod printer;
pub mod scan;
pub mod severity;
pub mod types;
