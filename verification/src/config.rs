//! The settings of a user: output format, default limit, date format.

use crate::clock::DATE_FORMAT;
use crate::search::DEFAULT_LIMIT;
use vstd::prelude::*;
use vstd::string::*;

verus! {

/// How results are written out.
#[derive(Debug, Clone, PartialEq, Eq)]
pub enum OutputFormat {
    /// Plain text.
    Text,
    /// JSON.
    Json,
}

impl Default for OutputFormat {
    fn default() -> (r: Self)
        ensures
            r is Text,
    {
        OutputFormat::Text
    }
}

/// The settings of a user.
#[derive(Debug, Clone, PartialEq, Eq)]
pub struct Config {
    /// How results are written out.
    pub output_format: OutputFormat,
    /// How many results a search or a listing gives when no limit is set.
    pub default_limit: usize,
    /// The pattern in which dates are written.
    pub date_format: String,
}

/// The pattern in which dates are written unless the user sets another.
pub fn default_date_format() -> (r: String)
    ensures
        r@ == DATE_FORMAT@,
{
    String::from_str(DATE_FORMAT)
}

impl Default for Config {
    /// Plain text, the default limit and the default date format.
    fn default() -> (r: Self)
        ensures
            r.output_format is Text,
            r.default_limit == DEFAULT_LIMIT,
            r.date_format@ == DATE_FORMAT@,
    {
        Self {
            output_format: OutputFormat::Text,
            default_limit: DEFAULT_LIMIT,
            date_format: default_date_format(),
        }
    }
}

} // verus!
