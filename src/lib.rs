//! A small line-oriented search library: split text into lines and keep the
//! lines that match a regular expression, with or without case folding.
pub mod config;
pub mod lines;
pub mod pattern;
pub mod search;

pub use config::{Config, ConfigError};
pub use lines::split_lines;
pub use search::{find_matches, grep, grep_case_insensitive, MatchError};
