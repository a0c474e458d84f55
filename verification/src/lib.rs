//! Session-log search and favorites.
//!
//! The library reads the lines of a session log into validated records
//! ([`parser`]), rebuilds a full-text index of them in a database file
//! ([`indexer`]), searches that index with sanitized queries ([`search`]),
//! and keeps a set of favorited sessions that it joins to the newest record
//! of each session ([`storage`]).
//!
//! What the library takes from other crates stands in modules of its own,
//! each item with the contract that the rest is proved against: JSON
//! ([`json`]), TOML ([`tomldoc`]), the database engine ([`sqlite`]), calendar
//! time ([`clock`]), paths ([`paths`]) and characters ([`text`]).

pub mod clock;
pub mod config;
pub mod error;
pub mod indexer;
pub mod json;
pub mod parser;
pub mod paths;
pub mod search;
pub mod sqlite;
pub mod storage;
pub mod text;
pub mod tomldoc;
