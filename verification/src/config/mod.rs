//! Configuration parsing and validation for `.codeatlas.yaml`.

pub mod schema;

use vstd::prelude::*;

pub use schema::RepoConfig;

verus! {

/// Errors from config parsing and validation.
#[derive(Debug)]
pub enum ConfigError {
    /// The YAML could not be parsed into a configuration.
    ParseError { reason: String },
    /// The schema version is not 1.
    UnsupportedVersion { version: u32 },
    /// The file could not be read.
    Io(std::io::Error),
}

} // verus!
