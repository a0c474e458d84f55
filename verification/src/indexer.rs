//! The index builder: it fills the database that searches read.

use crate::error::Error;
use crate::parser::SessionRecord;
use crate::paths::path_exists;
use crate::sqlite::{
    apply, execute, execute_batch, open, pragma_update, prepare, query, SqlArg, SqlValue,
};
use std::path::PathBuf;
use vstd::prelude::*;
use vstd::string::*;

verus! {

/// The tables of the index: the records, a full-text index over display,
/// project and session identifier, and the triggers that keep the two in
/// step on insert, delete and update.
pub const SCHEMA: &'static str = r#"
            CREATE TABLE IF NOT EXISTS sessions (
                id INTEGER PRIMARY KEY AUTOINCREMENT,
                display TEXT NOT NULL,
                timestamp INTEGER NOT NULL,
                project TEXT NOT NULL,
                session_id TEXT NOT NULL UNIQUE
            );

            CREATE VIRTUAL TABLE IF NOT EXISTS sessions_fts USING fts5(
                display,
                project,
                session_id,
                content='sessions',
                content_rowid='rowid'
            );

            CREATE TRIGGER IF NOT EXISTS sessions_ai AFTER INSERT ON sessions BEGIN
                INSERT INTO sessions_fts(rowid, display, project, session_id)
                VALUES (new.rowid, new.display, new.project, new.session_id);
            END;

            CREATE TRIGGER IF NOT EXISTS sessions_ad AFTER DELETE ON sessions BEGIN
                INSERT INTO sessions_fts(sessions_fts, rowid, display, project, session_id)
                VALUES ('delete', old.rowid, old.display, old.project, old.session_id);
            END;

            CREATE TRIGGER IF NOT EXISTS sessions_au AFTER UPDATE ON sessions BEGIN
                INSERT INTO sessions_fts(sessions_fts, rowid, display, project, session_id)
                VALUES ('delete', old.rowid, old.display, old.project, old.session_id);
                INSERT INTO sessions_fts(rowid, display, project, session_id)
                VALUES (new.rowid, new.display, new.project, new.session_id);
            END;
            "#;

/// Empties the table of records.
pub const CLEAR_RECORDS: &'static str = "DELETE FROM sessions";

/// Empties the full-text index.
pub const CLEAR_INDEX: &'static str = "DELETE FROM sessions_fts";

/// Stores one record; a record whose session identifier is stored already
/// takes the place of the stored one.
pub const INSERT_RECORD: &'static str =
    "INSERT OR REPLACE INTO sessions (display, timestamp, project, session_id) VALUES (?1, ?2, ?3, ?4)";

/// Asks the full-text index to merge its segments.
pub const OPTIMIZE_INDEX: &'static str = "INSERT INTO sessions_fts(sessions_fts) VALUES('optimize')";

/// Counts the stored records.
pub const COUNT_RECORDS: &'static str = "SELECT COUNT(*) FROM sessions";

/// The values that `INSERT_RECORD` takes for a record, in the order of its
/// parameters.
pub open spec fn insert_args(record: SessionRecord) -> Seq<SqlArg> {
    seq![
        SqlArg::Text(record.display),
        SqlArg::Integer(record.timestamp),
        SqlArg::Text(record.project),
        SqlArg::Text(record.session_id),
    ]
}

/// The arguments that store `record`.
pub fn record_args(record: &SessionRecord) -> (r: Vec<SqlArg>)
    ensures
        r@ == insert_args(*record),
{
    let mut args: Vec<SqlArg> = Vec::new();
    args.push(SqlArg::Text(record.display.clone()));
    args.push(SqlArg::Integer(record.timestamp));
    args.push(SqlArg::Text(record.project.clone()));
    args.push(SqlArg::Text(record.session_id.clone()));
    args
}

/// The number that a counting statement answered with.
pub enum Counted {
    /// The statement gave no row.
    NoRow,
    /// The first column of the first row is this number, which is not
    /// negative.
    Rows(usize),
    /// The first column of the first row is no count.
    Unreadable,
}

/// What the rows of a counting statement amount to.
pub open spec fn counted(rows: Seq<Vec<SqlValue>>) -> Counted {
    if rows.len() == 0 {
        Counted::NoRow
    } else if rows[0].len() == 0 {
        Counted::Unreadable
    } else {
        match rows[0][0] {
            SqlValue::Integer(number) => if 0 <= number <= usize::MAX {
                Counted::Rows(number as usize)
            } else {
                Counted::Unreadable
            },
            _ => Counted::Unreadable,
        }
    }
}

/// Reads the answer of a counting statement.
pub fn count_from_rows(rows: &Vec<Vec<SqlValue>>) -> (r: Counted)
    ensures
        r == counted(rows@),
{
    if rows.len() == 0 {
        return Counted::NoRow;
    }
    if rows[0].len() == 0 {
        return Counted::Unreadable;
    }
    match &rows[0][0] {
        SqlValue::Integer(number) => {
            if *number >= 0 && (*number as u64) <= usize::MAX as u64 {
                Counted::Rows(*number as usize)
            } else {
                Counted::Unreadable
            }
        },
        _ => Counted::Unreadable,
    }
}

fn database_fault(detail: String) -> (r: Error)
    ensures
        r == Error::Database(detail),
{
    Error::Database(detail)
}

/// The builder of the index kept in one database file.
#[derive(Debug, Clone)]
pub struct Indexer {
    db_path: PathBuf,
}

impl Indexer {
    /// The database file of this builder.
    pub closed spec fn path(self) -> PathBuf {
        self.db_path
    }

    /// A builder for the database file at `db_path`.
    pub fn with_db_path(db_path: PathBuf) -> (r: Self)
        ensures
            r.path() == db_path,
    {
        Self { db_path }
    }

    /// The database file.
    pub fn db_path(&self) -> (r: &PathBuf)
        ensures
            *r == self.path(),
    {
        &self.db_path
    }

    /// Rebuilds the index from `records`: the database is opened, its
    /// tables are made where they are missing and emptied, every record is
    /// stored in the order given, and the full-text index is optimized.
    /// The number returned is that of the records handed in. Any failure
    /// of the engine ends the rebuild with a database error.
    pub fn build_index(&self, records: &[SessionRecord]) -> (r: Result<usize, Error>)
        ensures
            r matches Ok(count) ==> count == records.len(),
            r matches Err(fault) ==> fault is Database,
    {
        let conn = match open(&self.db_path) {
            Ok(conn) => conn,
            Err(detail) => { return Err(database_fault(detail)); },
        };
        match pragma_update(&conn, "journal_mode", "WAL") {
            Ok(()) => {},
            Err(detail) => { return Err(database_fault(detail)); },
        }
        match execute_batch(&conn, SCHEMA) {
            Ok(()) => {},
            Err(detail) => { return Err(database_fault(detail)); },
        }
        match execute(&conn, CLEAR_RECORDS) {
            Ok(_) => {},
            Err(detail) => { return Err(database_fault(detail)); },
        }
        match execute(&conn, CLEAR_INDEX) {
            Ok(_) => {},
            Err(detail) => { return Err(database_fault(detail)); },
        }
        let mut insert = match prepare(&conn, INSERT_RECORD) {
            Ok(statement) => statement,
            Err(detail) => { return Err(database_fault(detail)); },
        };
        let mut count: usize = 0;
        while count < records.len()
            invariant
                count <= records.len(),
            decreases records.len() - count,
        {
            let args = record_args(&records[count]);
            match apply(&mut insert, &args) {
                Ok(_) => {},
                Err(detail) => { return Err(database_fault(detail)); },
            }
            count += 1;
        }
        match execute(&conn, OPTIMIZE_INDEX) {
            Ok(_) => {},
            Err(detail) => { return Err(database_fault(detail)); },
        }
        Ok(count)
    }

    /// The number of records in the index. A database without the table of
    /// records is reported as a database error.
    pub fn get_count(&self) -> (r: Result<usize, Error>)
        ensures
            r matches Err(fault) ==> fault is Database,
    {
        let conn = match open(&self.db_path) {
            Ok(conn) => conn,
            Err(detail) => { return Err(database_fault(detail)); },
        };
        let mut count = match prepare(&conn, COUNT_RECORDS) {
            Ok(statement) => statement,
            Err(detail) => { return Err(database_fault(detail)); },
        };
        let rows = match query(&mut count, &Vec::new()) {
            Ok(rows) => rows,
            Err(detail) => { return Err(database_fault(detail)); },
        };
        let answer = count_from_rows(&rows);
        match count_required(answer) {
            Ok(number) => Ok(number),
            Err(fault) => Err(fault),
        }
    }

    /// Whether the database file is there.
    pub fn index_exists(&self) -> bool {
        path_exists(&self.db_path)
    }
}

/// The number of records that a builder reports for what the counting
/// statement answered: the count itself; an answer without a row, or one
/// whose first column is no count, is a database error.
pub fn count_required(answer: Counted) -> (r: Result<usize, Error>)
    ensures
        match answer {
            Counted::Rows(number) => r == Ok::<usize, Error>(number),
            Counted::NoRow => r matches Err(Error::Database(detail)) && detail@
                == "Query returned no rows"@,
            Counted::Unreadable => r matches Err(Error::Database(detail)) && detail@
                == "Invalid column type"@,
        },
{
    match answer {
        Counted::Rows(number) => Ok(number),
        Counted::NoRow => Err(database_fault(String::from_str("Query returned no rows"))),
        Counted::Unreadable => Err(database_fault(String::from_str("Invalid column type"))),
    }
}

} // verus!
