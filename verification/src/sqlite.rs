//! The database engine, reached through rusqlite.
//!
//! The database is a file that other processes may write to, so no item
//! here promises what a statement finds or leaves behind: each says only
//! that the call was made and hands back what the engine answered. A
//! failure comes back as the message that rusqlite wrote for it.

use std::path::PathBuf;
use vstd::prelude::*;

verus! {

#[verifier::external_type_specification]
#[verifier::external_body]
pub struct ExConnection(rusqlite::Connection);

#[verifier::external_type_specification]
#[verifier::external_body]
pub struct ExStatement<'conn>(rusqlite::Statement<'conn>);

#[verifier::external_type_specification]
#[verifier::external_body]
pub struct ExEngineValue(rusqlite::types::Value);

/// A value bound to a parameter of a statement.
#[derive(Debug, Clone, PartialEq, Eq)]
pub enum SqlArg {
    Integer(i64),
    Text(String),
}

/// A value read from a column of a result row.
#[derive(Debug, Clone, PartialEq, Eq)]
pub enum SqlValue {
    Null,
    Integer(i64),
    /// A floating-point number, held as its IEEE 754 bit pattern.
    Real(u64),
    Text(String),
    Blob(Vec<u8>),
}

/// The value of the engine that stands for `arg`: of the same kind, with
/// the same content.
pub uninterp spec fn engine_value(arg: SqlArg) -> rusqlite::types::Value;

/// What a value of the engine holds: its kind and content, a real number as
/// its bits.
pub uninterp spec fn held_value(value: rusqlite::types::Value) -> SqlValue;

/// Makes the variant of `rusqlite::types::Value` that matches the argument,
/// with the argument's content.
#[verifier::external_body]
pub(crate) fn to_engine(arg: &SqlArg) -> (r: rusqlite::types::Value)
    ensures
        r == engine_value(*arg),
{
    match arg {
        SqlArg::Integer(number) => rusqlite::types::Value::Integer(*number),
        SqlArg::Text(text) => rusqlite::types::Value::Text(text.clone()),
    }
}

/// Tells the variants of `rusqlite::types::Value` apart and copies the
/// content; of a real number it keeps the bits (`to_bits`).
#[verifier::external_body]
pub(crate) fn from_engine(value: &rusqlite::types::Value) -> (r: SqlValue)
    ensures
        r == held_value(*value),
{
    match value {
        rusqlite::types::Value::Null => SqlValue::Null,
        rusqlite::types::Value::Integer(number) => SqlValue::Integer(*number),
        rusqlite::types::Value::Real(number) => SqlValue::Real(number.to_bits()),
        rusqlite::types::Value::Text(text) => SqlValue::Text(text.clone()),
        rusqlite::types::Value::Blob(bytes) => SqlValue::Blob(bytes.clone()),
    }
}

/// Calls `rusqlite::Connection::open`, which opens the database file at
/// `path` and creates it where there is none.
#[verifier::external_body]
pub(crate) fn open(path: &PathBuf) -> Result<rusqlite::Connection, String> {
    rusqlite::Connection::open(path).map_err(|fault| fault.to_string())
}

/// Calls `rusqlite::Connection::pragma_update` for the main schema.
#[verifier::external_body]
pub(crate) fn pragma_update(conn: &rusqlite::Connection, name: &str, value: &str) -> Result<
    (),
    String,
> {
    conn.pragma_update(None, name, value).map_err(|fault| fault.to_string())
}

/// Calls `rusqlite::Connection::execute_batch`, which runs the statements of
/// `sql` one after the other.
#[verifier::external_body]
pub(crate) fn execute_batch(conn: &rusqlite::Connection, sql: &str) -> Result<(), String> {
    conn.execute_batch(sql).map_err(|fault| fault.to_string())
}

/// Calls `rusqlite::Connection::execute` without parameters; the number is
/// that of the rows the statement changed.
#[verifier::external_body]
pub(crate) fn execute(conn: &rusqlite::Connection, sql: &str) -> Result<usize, String> {
    conn.execute(sql, ()).map_err(|fault| fault.to_string())
}

/// Calls `rusqlite::Connection::prepare`.
#[verifier::external_body]
pub(crate) fn prepare<'conn>(conn: &'conn rusqlite::Connection, sql: &str) -> Result<
    rusqlite::Statement<'conn>,
    String,
> {
    conn.prepare(sql).map_err(|fault| fault.to_string())
}

/// Calls `rusqlite::Statement::execute` with `values` bound in their order;
/// the number is that of the rows the statement changed.
#[verifier::external_body]
pub(crate) fn run(
    statement: &mut rusqlite::Statement<'_>,
    values: &Vec<rusqlite::types::Value>,
) -> Result<usize, String> {
    statement.execute(rusqlite::params_from_iter(values.iter())).map_err(|fault| fault.to_string())
}

/// Calls `rusqlite::Statement::query_map` with `values` bound in their
/// order and reads every column of every row with `Row::get`: the rows in
/// the order the engine gave them, each with as many values as the
/// statement has columns.
#[verifier::external_body]
pub(crate) fn fetch(
    statement: &mut rusqlite::Statement<'_>,
    values: &Vec<rusqlite::types::Value>,
) -> Result<Vec<Vec<rusqlite::types::Value>>, String> {
    let width = statement.column_count();
    let rows = statement.query_map(
        rusqlite::params_from_iter(values.iter()),
        |row| (0..width).map(|column| row.get(column)).collect(),
    );
    rows.and_then(|rows| rows.collect()).map_err(|fault| fault.to_string())
}

/// The values of the engine that stand for `args`, in their order.
pub open spec fn engine_values(args: Seq<SqlArg>) -> Seq<rusqlite::types::Value> {
    args.map_values(|arg: SqlArg| engine_value(arg))
}

/// What the values of a row hold, in their order.
pub open spec fn held_row(row: Seq<rusqlite::types::Value>) -> Seq<SqlValue> {
    row.map_values(|value: rusqlite::types::Value| held_value(value))
}

/// Turns the arguments of a statement into values of the engine.
pub(crate) fn bind(args: &Vec<SqlArg>) -> (r: Vec<rusqlite::types::Value>)
    ensures
        r@ == engine_values(args@),
{
    let mut values: Vec<rusqlite::types::Value> = Vec::new();
    let mut i: usize = 0;
    while i < args.len()
        invariant
            i <= args.len(),
            values@ == engine_values(args@.take(i as int)),
        decreases args.len() - i,
    {
        values.push(to_engine(&args[i]));
        assert(args@.take(i + 1) == args@.take(i as int).push(args[i as int]));
        i += 1;
    }
    assert(args@.take(args.len() as int) == args@);
    values
}

/// Reads what the values of a row hold.
pub(crate) fn read_row(row: &Vec<rusqlite::types::Value>) -> (r: Vec<SqlValue>)
    ensures
        r@ == held_row(row@),
{
    let mut values: Vec<SqlValue> = Vec::new();
    let mut i: usize = 0;
    while i < row.len()
        invariant
            i <= row.len(),
            values@ == held_row(row@.take(i as int)),
        decreases row.len() - i,
    {
        values.push(from_engine(&row[i]));
        assert(row@.take(i + 1) == row@.take(i as int).push(row[i as int]));
        i += 1;
    }
    assert(row@.take(row.len() as int) == row@);
    values
}

/// Reads what the values of all rows hold, in the order of the rows.
pub(crate) fn read_rows(rows: &Vec<Vec<rusqlite::types::Value>>) -> (r: Vec<Vec<SqlValue>>)
    ensures
        r.len() == rows.len(),
        forall|i: int| 0 <= i < rows.len() ==> (#[trigger] r[i])@ == held_row(rows[i]@),
{
    let mut read: Vec<Vec<SqlValue>> = Vec::new();
    let mut i: usize = 0;
    while i < rows.len()
        invariant
            i <= rows.len(),
            read.len() == i,
            forall|j: int| 0 <= j < i ==> (#[trigger] read[j])@ == held_row(rows[j]@),
        decreases rows.len() - i,
    {
        read.push(read_row(&rows[i]));
        i += 1;
    }
    read
}

/// Runs the prepared statement with `args` and hands back its rows.
pub(crate) fn query(statement: &mut rusqlite::Statement<'_>, args: &Vec<SqlArg>) -> Result<
    Vec<Vec<SqlValue>>,
    String,
> {
    let values = bind(args);
    match fetch(statement, &values) {
        Ok(rows) => Ok(read_rows(&rows)),
        Err(detail) => Err(detail),
    }
}

/// Runs the prepared statement with `args`; the number is that of the rows
/// it changed.
pub(crate) fn apply(statement: &mut rusqlite::Statement<'_>, args: &Vec<SqlArg>) -> Result<
    usize,
    String,
> {
    let values = bind(args);
    run(statement, &values)
}

} // verus!
