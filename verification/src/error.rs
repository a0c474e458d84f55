//! The error kinds that the library reports.

use crate::text::{decimal, decimal_text};
use vstd::prelude::*;
use vstd::string::*;

verus! {

/// What can go wrong while reading the session log, the index or the
/// favorites file.
#[derive(Debug, Clone, PartialEq, Eq)]
pub enum Error {
    /// A filesystem operation failed; the detail is the system's message.
    Io(String),
    /// A log line is not the JSON that a record needs.
    JsonParse(String),
    /// The favorites file is not valid TOML.
    TomlParse(String),
    /// A value could not be written as TOML.
    TomlSerialize(String),
    /// The database engine reported a failure.
    Database(String),
    /// A named input file is absent.
    NotFound(String),
    /// A session identifier is empty.
    InvalidSessionId(String),
    /// The session is not among the favorites.
    SessionNotFound(String),
    /// A timestamp is zero or negative.
    InvalidTimestamp(i64),
    /// The private data directory cannot be resolved.
    HomeDirNotFound,
}

impl Error {
    /// The text shown to a user for this error.
    pub open spec fn message(self) -> Seq<char> {
        match self {
            Error::Io(detail) => "IO error: "@ + detail@,
            Error::JsonParse(detail) => "JSON parse error: "@ + detail@,
            Error::TomlParse(detail) => "TOML parse error: "@ + detail@,
            Error::TomlSerialize(detail) => "TOML serialization error: "@ + detail@,
            Error::Database(detail) => "Database error: "@ + detail@,
            Error::NotFound(path) => "File not found: "@ + path@,
            Error::InvalidSessionId(detail) => "Invalid session ID: "@ + detail@,
            Error::SessionNotFound(id) => "Session not found in favorites: "@ + id@,
            Error::InvalidTimestamp(millis) => "Invalid timestamp: "@ + decimal(millis as int),
            Error::HomeDirNotFound => "Home directory not found"@,
        }
    }

    /// Renders the error as the text of `message`.
    pub fn to_string(&self) -> (r: String)
        ensures
            r@ == self.message(),
    {
        match self {
            Error::Io(detail) => String::from_str("IO error: ").concat(detail.as_str()),
            Error::JsonParse(detail) => String::from_str("JSON parse error: ").concat(
                detail.as_str(),
            ),
            Error::TomlParse(detail) => String::from_str("TOML parse error: ").concat(
                detail.as_str(),
            ),
            Error::TomlSerialize(detail) => String::from_str("TOML serialization error: ").concat(
                detail.as_str(),
            ),
            Error::Database(detail) => String::from_str("Database error: ").concat(
                detail.as_str(),
            ),
            Error::NotFound(path) => String::from_str("File not found: ").concat(path.as_str()),
            Error::InvalidSessionId(detail) => String::from_str("Invalid session ID: ").concat(
                detail.as_str(),
            ),
            Error::SessionNotFound(id) => String::from_str(
                "Session not found in favorites: ",
            ).concat(id.as_str()),
            Error::InvalidTimestamp(millis) => {
                let number = decimal_text(*millis);
                String::from_str("Invalid timestamp: ").concat(number.as_str())
            },
            Error::HomeDirNotFound => String::from_str("Home directory not found"),
        }
    }
}

} // verus!
