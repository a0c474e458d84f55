//! The query engine: sanitized full-text search over the index, and a
//! plain substring search beside it.

use crate::error::Error;
use crate::indexer::{count_from_rows, Counted, COUNT_RECORDS};
use crate::parser::SessionRecord;
use crate::paths::path_exists;
use crate::sqlite::{open, prepare, query, SqlArg, SqlValue};
use crate::text::{
    is_alphanumeric_char, is_control_char, is_white_space, trimmed, white_space_trims_to_nothing,
};
use std::path::PathBuf;
use vstd::prelude::*;
use vstd::string::*;

verus! {

/// The number of results returned when the caller sets no limit.
pub const DEFAULT_LIMIT: usize = 20;

/// Characters that the full-text query grammar reserves.
pub open spec fn is_reserved(c: char) -> bool {
    c == '"' || c == '\'' || c == '(' || c == ')' || c == '{' || c == '}' || c == '[' || c == ']'
        || c == '-' || c == '.' || c == '|' || c == '*' || c == '?' || c == '~'
}

/// Characters that survive the filter: neither reserved nor control.
pub open spec fn is_kept(c: char) -> bool {
    !is_reserved(c) && !is_control_char(c)
}

/// Characters that make a query worth running.
pub open spec fn is_word_char(c: char) -> bool {
    is_alphanumeric_char(c) || c == '_'
}

/// The query with every reserved and control character dropped.
pub open spec fn filtered(query: Seq<char>) -> Seq<char> {
    query.filter(|c: char| is_kept(c))
}

/// Whether any character of `s` is a word character.
pub open spec fn has_word_char(s: Seq<char>) -> bool {
    exists|i: int| 0 <= i < s.len() && is_word_char(#[trigger] s[i])
}

/// The sanitized form of a query: the filtered text, or nothing when the
/// filtered text holds no word character.
pub open spec fn sanitized(query: Seq<char>) -> Seq<char> {
    if has_word_char(filtered(query)) {
        filtered(query)
    } else {
        Seq::empty()
    }
}

proof fn lemma_has_word_char_push(s: Seq<char>, c: char)
    ensures
        has_word_char(s.push(c)) == (has_word_char(s) || is_word_char(c)),
{
    if has_word_char(s) {
        let i = choose|i: int| 0 <= i < s.len() && is_word_char(#[trigger] s[i]);
        assert(s.push(c)[i] == s[i]);
    }
    if is_word_char(c) {
        assert(s.push(c)[s.len() as int] == c);
    }
    if has_word_char(s.push(c)) {
        let i = choose|i: int| 0 <= i < s.push(c).len() && is_word_char(#[trigger] s.push(c)[i]);
        if i < s.len() {
            assert(s.push(c)[i] == s[i]);
        }
    }
}

fn reserved(c: char) -> (b: bool)
    ensures
        b == is_reserved(c),
{
    c == '"' || c == '\'' || c == '(' || c == ')' || c == '{' || c == '}' || c == '[' || c == ']'
        || c == '-' || c == '.' || c == '|' || c == '*' || c == '?' || c == '~'
}

/// Drops reserved and control characters from `query`; gives the empty
/// string when no word character is left.
pub fn sanitize_fts5_query(query: &str) -> (r: String)
    ensures
        r@ == sanitized(query@),
{
    let mut result = String::new();
    let mut has_valid_char = false;
    for c in it: query.chars()
        invariant
            it.seq() == query@,
            result@ == filtered(query@.take(it.index())),
            has_valid_char == has_word_char(result@),
    {
        proof {
            let seen = query@.take(it.index());
            assert(query@.take(it.index() + 1) == seen.push(c));
            seen.lemma_filter_push(c, |c: char| is_kept(c));
            lemma_has_word_char_push(result@, c);
        }
        if !reserved(c) && !c.is_control() {
            result.push(c);
            if c.is_alphanumeric() || c == '_' {
                has_valid_char = true;
            }
        }
    }
    assert(query@.take(query@.len() as int) == query@);
    if !has_valid_char {
        String::new()
    } else {
        result
    }
}

/// The expression handed to the full-text index for `query`: the sanitized
/// query with the prefix wildcard behind it. There is none for a query that
/// is blank or sanitizes to nothing: such a query finds nothing.
pub open spec fn match_expression(query: Seq<char>) -> Option<Seq<char>> {
    if trimmed(query).len() == 0 || sanitized(query).len() == 0 {
        None
    } else {
        Some(sanitized(query).push('*'))
    }
}

/// The pattern that finds `keyword` anywhere in a text: the keyword as it
/// is, between two wildcards.
pub open spec fn like_pattern(keyword: Seq<char>) -> Seq<char> {
    seq!['%'] + keyword + seq!['%']
}

/// The row limit handed to the engine: the caller's limit, or the default
/// where none is set; a limit beyond the engine's range is its largest.
pub open spec fn row_limit(limit: Option<usize>) -> i64 {
    let wanted = match limit {
        Some(n) => n,
        None => DEFAULT_LIMIT,
    };
    if wanted <= i64::MAX {
        wanted as i64
    } else {
        i64::MAX
    }
}

/// Finds what matches the expression, newest first and, among records of
/// one timestamp, most relevant first; relevance counts matches in the
/// display text only.
pub const SEARCH: &'static str = r#"
            SELECT
                s.display,
                s.timestamp,
                s.project,
                s.session_id,
                bm25(sessions_fts, 100, 0, 0) as score
            FROM sessions_fts
            JOIN sessions s ON s.rowid = sessions_fts.rowid
            WHERE sessions_fts MATCH ?1
            ORDER BY s.timestamp DESC, score ASC
            LIMIT ?2
        "#;

/// As `SEARCH`, among the records whose project matches a pattern.
pub const SEARCH_IN_PROJECT: &'static str = r#"
            SELECT
                s.display,
                s.timestamp,
                s.project,
                s.session_id,
                bm25(sessions_fts, 100, 0, 0) as score
            FROM sessions_fts
            JOIN sessions s ON s.rowid = sessions_fts.rowid
            WHERE sessions_fts MATCH ?1 AND s.project LIKE ?2
            ORDER BY s.timestamp DESC, score ASC
            LIMIT ?3
        "#;

/// Finds the records whose display text or project matches a pattern,
/// newest first, without the full-text index.
pub const SIMPLE_SEARCH: &'static str = r#"
            SELECT display, timestamp, project, session_id
            FROM sessions
            WHERE display LIKE ?1 OR project LIKE ?1
            ORDER BY timestamp DESC
            LIMIT ?2
        "#;

/// Counts the tables named `sessions`.
pub const COUNT_TABLES: &'static str =
    "SELECT COUNT(*) FROM sqlite_master WHERE type = 'table' AND name = 'sessions'";

/// A record found by a search, with its relevance.
#[derive(Debug, Clone, PartialEq, Eq)]
pub struct SearchResult {
    /// The record.
    pub record: SessionRecord,
    /// The relevance score as the bit pattern of an IEEE 754 double; the
    /// lower the score, the more relevant the record.
    pub score_bits: u64,
}

impl SearchResult {
    /// Makes a result of a record and the bits of its score.
    pub fn new(record: SessionRecord, score_bits: u64) -> (r: Self)
        ensures
            r.record == record,
            r.score_bits == score_bits,
    {
        Self { record, score_bits }
    }
}

/// The record in the first four columns of `row`, where they are a text, an
/// integer, a text and a text.
pub open spec fn row_record(row: Seq<SqlValue>) -> Option<SessionRecord> {
    if row.len() < 4 {
        None
    } else {
        match (row[0], row[1], row[2], row[3]) {
            (
                SqlValue::Text(display),
                SqlValue::Integer(timestamp),
                SqlValue::Text(project),
                SqlValue::Text(session_id),
            ) => Some(SessionRecord { display, timestamp, project, session_id }),
            _ => None,
        }
    }
}

/// The search result in the five columns of `row`: a record, then a real
/// number.
pub open spec fn row_result(row: Seq<SqlValue>) -> Option<SearchResult> {
    if row.len() < 5 {
        None
    } else {
        match (row_record(row), row[4]) {
            (Some(record), SqlValue::Real(score_bits)) => Some(SearchResult { record, score_bits }),
            _ => None,
        }
    }
}

fn column_fault() -> (r: Error)
    ensures
        r matches Error::Database(detail) && detail@ == "Invalid column type"@,
{
    Error::Database(String::from_str("Invalid column type"))
}

/// Reads a record from the first four columns of a row.
pub fn record_from_row(row: &Vec<SqlValue>) -> (r: Result<SessionRecord, Error>)
    ensures
        match row_record(row@) {
            Some(record) => r matches Ok(found) && found@ == record@,
            None => r matches Err(Error::Database(detail)) && detail@ == "Invalid column type"@,
        },
{
    if row.len() < 4 {
        return Err(column_fault());
    }
    let display = match &row[0] {
        SqlValue::Text(text) => text.clone(),
        _ => { return Err(column_fault()); },
    };
    let timestamp = match &row[1] {
        SqlValue::Integer(number) => *number,
        _ => { return Err(column_fault()); },
    };
    let project = match &row[2] {
        SqlValue::Text(text) => text.clone(),
        _ => { return Err(column_fault()); },
    };
    let session_id = match &row[3] {
        SqlValue::Text(text) => text.clone(),
        _ => { return Err(column_fault()); },
    };
    Ok(SessionRecord::new(display, timestamp, project, session_id))
}

/// Reads a search result from the five columns of a row.
pub fn result_from_row(row: &Vec<SqlValue>) -> (r: Result<SearchResult, Error>)
    ensures
        match row_result(row@) {
            Some(result) => r matches Ok(found) && found.record@ == result.record@
                && found.score_bits == result.score_bits,
            None => r matches Err(Error::Database(detail)) && detail@ == "Invalid column type"@,
        },
{
    if row.len() < 5 {
        return Err(column_fault());
    }
    let record = match record_from_row(row) {
        Ok(record) => record,
        Err(fault) => { return Err(fault); },
    };
    match &row[4] {
        SqlValue::Real(score_bits) => Ok(SearchResult::new(record, *score_bits)),
        _ => Err(column_fault()),
    }
}

/// Reads the records of all rows, in their order; the first row that holds
/// no record ends the reading with an error.
pub fn records_from_rows(rows: &Vec<Vec<SqlValue>>) -> (r: Result<Vec<SessionRecord>, Error>)
    ensures
        match r {
            Ok(records) => records.len() == rows.len() && forall|i: int|
                0 <= i < rows.len() ==> (row_record((#[trigger] rows[i])@) matches Some(record)
                    && records[i]@ == record@),
            Err(fault) => (fault matches Error::Database(detail) && detail@
                == "Invalid column type"@) && exists|i: int|
                0 <= i < rows.len() && row_record((#[trigger] rows[i])@) is None,
        },
{
    let mut records: Vec<SessionRecord> = Vec::new();
    let mut i: usize = 0;
    while i < rows.len()
        invariant
            i <= rows.len(),
            records.len() == i,
            forall|j: int|
                0 <= j < i ==> (row_record((#[trigger] rows[j])@) matches Some(record)
                    && records[j]@ == record@),
        decreases rows.len() - i,
    {
        match record_from_row(&rows[i]) {
            Ok(record) => {
                records.push(record);
            },
            Err(fault) => {
                assert(row_record(rows[i as int]@) is None);
                return Err(fault);
            },
        }
        i += 1;
    }
    Ok(records)
}

/// Reads the search results of all rows, in their order; the first row that
/// holds none ends the reading with an error.
pub fn results_from_rows(rows: &Vec<Vec<SqlValue>>) -> (r: Result<Vec<SearchResult>, Error>)
    ensures
        match r {
            Ok(results) => results.len() == rows.len() && forall|i: int|
                0 <= i < rows.len() ==> (row_result((#[trigger] rows[i])@) matches Some(result)
                    && results[i].record@ == result.record@ && results[i].score_bits
                    == result.score_bits),
            Err(fault) => (fault matches Error::Database(detail) && detail@
                == "Invalid column type"@) && exists|i: int|
                0 <= i < rows.len() && row_result((#[trigger] rows[i])@) is None,
        },
{
    let mut results: Vec<SearchResult> = Vec::new();
    let mut i: usize = 0;
    while i < rows.len()
        invariant
            i <= rows.len(),
            results.len() == i,
            forall|j: int|
                0 <= j < i ==> (row_result((#[trigger] rows[j])@) matches Some(result)
                    && results[j].record@ == result.record@ && results[j].score_bits
                    == result.score_bits),
        decreases rows.len() - i,
    {
        match result_from_row(&rows[i]) {
            Ok(result) => {
                results.push(result);
            },
            Err(fault) => {
                assert(row_result(rows[i as int]@) is None);
                return Err(fault);
            },
        }
        i += 1;
    }
    Ok(results)
}

/// The expression to hand to the full-text index for `query`, if the query
/// is worth running.
pub fn prepare_query(query: &str) -> (r: Option<String>)
    ensures
        match r {
            Some(expression) => match_expression(query@) == Some(expression@),
            None => match_expression(query@) is None,
        },
{
    if query.trim().is_empty() {
        return None;
    }
    let mut expression = sanitize_fts5_query(query);
    if expression.as_str().is_empty() {
        return None;
    }
    expression.push('*');
    Some(expression)
}

/// The pattern that finds `keyword` anywhere in a text.
pub fn contains_pattern(keyword: &str) -> (r: String)
    ensures
        r@ == like_pattern(keyword@),
{
    let mut pattern = String::new();
    pattern.push('%');
    pattern.append(keyword);
    pattern.push('%');
    assert(pattern@ == like_pattern(keyword@));
    pattern
}

/// The limit in force for a request: the caller's, or the default.
pub fn effective_limit(limit: Option<usize>) -> (n: usize)
    ensures
        n == (match limit {
            Some(k) => k,
            None => DEFAULT_LIMIT,
        }),
{
    match limit {
        Some(k) => k,
        None => DEFAULT_LIMIT,
    }
}

/// The row limit to hand to the engine.
pub fn limit_value(limit: Option<usize>) -> (r: i64)
    ensures
        r == row_limit(limit),
{
    let wanted = effective_limit(limit);
    if wanted as u64 <= i64::MAX as u64 {
        wanted as i64
    } else {
        i64::MAX
    }
}

/// Whether `arg` is the text `text`.
pub open spec fn is_text_arg(arg: SqlArg, text: Seq<char>) -> bool {
    arg matches SqlArg::Text(held) && held@ == text
}

/// The values that `SEARCH` takes for a query: the match expression and the
/// row limit. A query without a match expression is not run.
pub fn search_args(query: &str, limit: Option<usize>) -> (r: Option<Vec<SqlArg>>)
    ensures
        match match_expression(query@) {
            Some(expression) => r matches Some(args) && args.len() == 2 && is_text_arg(
                args[0],
                expression,
            ) && args[1] == SqlArg::Integer(row_limit(limit)),
            None => r is None,
        },
{
    let expression = match prepare_query(query) {
        Some(expression) => expression,
        None => { return None; },
    };
    let mut args: Vec<SqlArg> = Vec::new();
    args.push(SqlArg::Text(expression));
    args.push(SqlArg::Integer(limit_value(limit)));
    Some(args)
}

/// The values that `SEARCH_IN_PROJECT` takes: the match expression, the
/// pattern that finds `project` in a project path, and the row limit. A
/// query without a match expression is not run.
pub fn project_search_args(query: &str, project: &str, limit: Option<usize>) -> (r: Option<
    Vec<SqlArg>,
>)
    ensures
        match match_expression(query@) {
            Some(expression) => r matches Some(args) && args.len() == 3 && is_text_arg(
                args[0],
                expression,
            ) && is_text_arg(args[1], like_pattern(project@)) && args[2] == SqlArg::Integer(
                row_limit(limit),
            ),
            None => r is None,
        },
{
    let expression = match prepare_query(query) {
        Some(expression) => expression,
        None => { return None; },
    };
    let mut args: Vec<SqlArg> = Vec::new();
    args.push(SqlArg::Text(expression));
    args.push(SqlArg::Text(contains_pattern(project)));
    args.push(SqlArg::Integer(limit_value(limit)));
    Some(args)
}

/// The values that `SIMPLE_SEARCH` takes: the pattern that finds `keyword`
/// and the row limit.
pub fn simple_search_args(keyword: &str, limit: Option<usize>) -> (r: Vec<SqlArg>)
    ensures
        r.len() == 2,
        is_text_arg(r[0], like_pattern(keyword@)),
        r[1] == SqlArg::Integer(row_limit(limit)),
{
    let mut args: Vec<SqlArg> = Vec::new();
    args.push(SqlArg::Text(contains_pattern(keyword)));
    args.push(SqlArg::Integer(limit_value(limit)));
    args
}

fn database_fault(detail: String) -> (r: Error)
    ensures
        r == Error::Database(detail),
{
    Error::Database(detail)
}

/// The query engine over the index kept in one database file.
#[derive(Debug, Clone)]
pub struct Search {
    db_path: PathBuf,
}

impl Search {
    /// The database file of this engine.
    pub closed spec fn path(self) -> PathBuf {
        self.db_path
    }

    /// An engine for the database file at `db_path`.
    pub fn with_db_path(db_path: PathBuf) -> (r: Self)
        ensures
            r.path() == db_path,
    {
        Self { db_path }
    }

    /// The database file.
    pub fn db_path(&self) -> (r: &PathBuf)
        ensures
            *r == self.path(),
    {
        &self.db_path
    }

    /// Runs `sql` with `args` and hands back the rows.
    fn rows(&self, sql: &str, args: &Vec<SqlArg>) -> (r: Result<Vec<Vec<SqlValue>>, Error>)
        ensures
            r matches Err(fault) ==> fault is Database,
    {
        let conn = match open(&self.db_path) {
            Ok(conn) => conn,
            Err(detail) => { return Err(database_fault(detail)); },
        };
        let mut statement = match prepare(&conn, sql) {
            Ok(statement) => statement,
            Err(detail) => { return Err(database_fault(detail)); },
        };
        match query(&mut statement, args) {
            Ok(rows) => Ok(rows),
            Err(detail) => Err(database_fault(detail)),
        }
    }

    /// Searches the index for records that hold a word beginning with the
    /// sanitized `query`, newest first, at most `limit` of them (20 where no
    /// limit is set). A query that is blank, or that holds no letter, digit
    /// or underscore once reserved and control characters are dropped,
    /// finds nothing and does not touch the database.
    pub fn search(&self, query: &str, limit: Option<usize>) -> (r: Result<
        Vec<SearchResult>,
        Error,
    >)
        ensures
            match_expression(query@) is None ==> (r matches Ok(found) && found@.len() == 0),
            r matches Err(fault) ==> fault is Database,
    {
        let args = match search_args(query, limit) {
            Some(args) => args,
            None => { return Ok(Vec::new()); },
        };
        let rows = match self.rows(SEARCH, &args) {
            Ok(rows) => rows,
            Err(fault) => { return Err(fault); },
        };
        results_from_rows(&rows)
    }

    /// As `search`, among the records whose project path holds `project`.
    pub fn search_with_project(&self, query: &str, project: &str, limit: Option<usize>) -> (r:
        Result<Vec<SearchResult>, Error>)
        ensures
            match_expression(query@) is None ==> (r matches Ok(found) && found@.len() == 0),
            r matches Err(fault) ==> fault is Database,
    {
        let args = match project_search_args(query, project, limit) {
            Some(args) => args,
            None => { return Ok(Vec::new()); },
        };
        let rows = match self.rows(SEARCH_IN_PROJECT, &args) {
            Ok(rows) => rows,
            Err(fault) => { return Err(fault); },
        };
        results_from_rows(&rows)
    }

    /// Finds the records whose display text or project holds `keyword`,
    /// newest first, at most `limit` of them (20 where no limit is set).
    /// The keyword is used as it is, and the full-text index is not read.
    pub fn simple_search(&self, keyword: &str, limit: Option<usize>) -> (r: Result<
        Vec<SessionRecord>,
        Error,
    >)
        ensures
            r matches Err(fault) ==> fault is Database,
    {
        let args = simple_search_args(keyword, limit);
        let rows = match self.rows(SIMPLE_SEARCH, &args) {
            Ok(rows) => rows,
            Err(fault) => { return Err(fault); },
        };
        records_from_rows(&rows)
    }

    /// Whether the database file is there.
    pub fn index_exists(&self) -> bool {
        path_exists(&self.db_path)
    }

    /// The number of records in the index; 0 where the database file or
    /// its table of records is not there yet.
    pub fn get_count(&self) -> (r: Result<usize, Error>)
        ensures
            r matches Err(fault) ==> fault is Database,
    {
        if !path_exists(&self.db_path) {
            return Ok(count_without_index());
        }
        let no_args: Vec<SqlArg> = Vec::new();
        let tables = match self.rows(COUNT_TABLES, &no_args) {
            Ok(rows) => rows,
            Err(fault) => { return Err(fault); },
        };
        match count_without_table(count_from_rows(&tables)) {
            Ok(Some(number)) => { return Ok(number); },
            Ok(None) => {},
            Err(fault) => { return Err(fault); },
        }
        let counted = match self.rows(COUNT_RECORDS, &no_args) {
            Ok(rows) => rows,
            Err(fault) => { return Err(fault); },
        };
        count_or_zero(count_from_rows(&counted))
    }
}

/// A query made of reserved and control characters only sanitizes to
/// nothing, so that a search for it finds nothing. The empty query is one
/// of them.
pub proof fn reserved_only_query_finds_nothing(query: Seq<char>)
    requires
        forall|i: int|
            0 <= i < query.len() ==> is_reserved(#[trigger] query[i]) || is_control_char(query[i]),
    ensures
        sanitized(query) == Seq::<char>::empty(),
        match_expression(query) is None,
{
    lemma_nothing_kept(query);
}

proof fn lemma_nothing_kept(query: Seq<char>)
    requires
        forall|i: int| 0 <= i < query.len() ==> !is_kept(#[trigger] query[i]),
    ensures
        filtered(query).len() == 0,
    decreases query.len(),
{
    reveal(Seq::filter);
    if query.len() > 0 {
        let rest = query.drop_last();
        assert forall|i: int| 0 <= i < rest.len() implies !is_kept(#[trigger] rest[i]) by {
            assert(rest[i] == query[i]);
        }
        lemma_nothing_kept(rest);
        assert(!is_kept(query.last()));
    }
}

/// A query of white space only finds nothing; a query of spaces is one.
pub proof fn blank_query_finds_nothing(query: Seq<char>)
    requires
        forall|i: int| 0 <= i < query.len() ==> is_white_space(#[trigger] query[i]),
    ensures
        match_expression(query) is None,
{
    white_space_trims_to_nothing(query);
}

/// The number of records reported where there is no database file: none.
/// The file is not opened, so that none is made.
pub fn count_without_index() -> (n: usize)
    ensures
        n == 0,
{
    0
}

/// The number of records reported on account of the table of records
/// alone, by what the statement that counts the tables of that name
/// answered. Where that count is 0, or the answer has no row, the table is
/// missing and 0 records are reported. Where it is above 0 the table is
/// there and nothing is reported yet: the records are to be counted. An
/// answer whose first column is no count is a database error.
pub fn count_without_table(answer: Counted) -> (r: Result<Option<usize>, Error>)
    ensures
        match answer {
            Counted::Rows(number) => r == Ok::<Option<usize>, Error>(
                if number > 0 {
                    None
                } else {
                    Some(0)
                },
            ),
            Counted::NoRow => r == Ok::<Option<usize>, Error>(Some(0)),
            Counted::Unreadable => r matches Err(Error::Database(detail)) && detail@
                == "Invalid column type"@,
        },
{
    match answer {
        Counted::Rows(number) => {
            if number > 0 {
                Ok(None)
            } else {
                Ok(Some(0))
            }
        },
        Counted::NoRow => Ok(Some(0)),
        Counted::Unreadable => Err(column_fault()),
    }
}

/// The number of records that the query engine reports for what the
/// counting statement answered: the count itself, and 0 for an answer
/// without a row; an answer whose first column is no count is a database
/// error.
pub fn count_or_zero(answer: Counted) -> (r: Result<usize, Error>)
    ensures
        match answer {
            Counted::Rows(number) => r == Ok::<usize, Error>(number),
            Counted::NoRow => r == Ok::<usize, Error>(0),
            Counted::Unreadable => r matches Err(Error::Database(detail)) && detail@
                == "Invalid column type"@,
        },
{
    match answer {
        Counted::Rows(number) => Ok(number),
        Counted::NoRow => Ok(0),
        Counted::Unreadable => Err(column_fault()),
    }
}

} // verus!
