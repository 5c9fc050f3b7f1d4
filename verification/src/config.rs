//! The configuration-loading exercise's error taxonomy. Reading the file
//! and parsing it as JSON happen in the unverified shell (through the
//! filesystem and a JSON library's deserializer); the shell converts what
//! failed into this enum, and the messages shown to the user are fixed
//! here.

use vstd::prelude::*;

verus! {

/// What went wrong while loading the configuration.
#[derive(Debug, PartialEq, Eq)]
pub enum ConfigError {
    /// The file could not be read; carries the file name.
    FileRead(String),
    /// An I/O error; carries the underlying error's message.
    Io(String),
    /// The contents were not valid JSON; carries the parser's message.
    Json(String),
}

impl ConfigError {
    /// The single human-readable line reported for this error.
    pub fn describe(&self) -> (r: String)
        ensures
            self matches ConfigError::FileRead(s) ==> r@ == "Failed to read file: "@ + s@,
            self matches ConfigError::Io(s) ==> r@ == "I/O error occurred: "@ + s@,
            self matches ConfigError::Json(s) ==> r@ == "JSON parsing error: "@ + s@,
    {
        match self {
            ConfigError::FileRead(s) => {
                let mut m = String::from_str("Failed to read file: ");
                m.append(s.as_str());
                m
            },
            ConfigError::Io(s) => {
                let mut m = String::from_str("I/O error occurred: ");
                m.append(s.as_str());
                m
            },
            ConfigError::Json(s) => {
                let mut m = String::from_str("JSON parsing error: ");
                m.append(s.as_str());
                m
            },
        }
    }
}

} // verus!
