//! A named-script runner library.
//!
//! A manifest written in TOML lists named shell scripts.  The library parses
//! the manifest into a raw, untyped form, validates it into a domain model
//! (collecting every violation), and prepares a validated script for
//! execution by flattening its command tree into a linear shell script.
//! All file and process handling is left to the embedding program.

pub mod config;
pub mod fmt_num;
pub mod laws;
pub mod raw_config;
pub mod runner;
pub mod toml_value;
