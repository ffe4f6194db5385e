//! The calls into rusqlite that the engine makes, each behind one trusted item.
use vstd::prelude::*;
use crate::value::Cell;

verus! {

#[verifier::external_type_specification]
#[verifier::external_body]
pub struct ExConnection(rusqlite::Connection);

#[verifier::external_type_specification]
#[verifier::external_body]
pub struct ExSqlError(rusqlite::Error);

#[verifier::external_type_specification]
#[verifier::external_body]
pub struct ExStatement<'conn>(rusqlite::Statement<'conn>);

#[verifier::external_type_specification]
#[verifier::external_body]
pub struct ExRows<'stmt>(rusqlite::Rows<'stmt>);

#[verifier::external_type_specification]
#[verifier::external_body]
pub struct ExRow<'stmt>(rusqlite::Row<'stmt>);

/// Relies on `rusqlite::Connection::open`: opens the file at `path` with the
/// default flags (read-write, created if absent), or says why it could not.
#[verifier::external_body]
pub(crate) fn open_connection(path: &str) -> (r: Result<rusqlite::Connection, rusqlite::Error>) {
    rusqlite::Connection::open(path)
}

/// Relies on `rusqlite::Connection::prepare`: compiles `sql` into a statement,
/// or gives the engine's error.
#[verifier::external_body]
pub(crate) fn prepare<'c>(conn: &'c rusqlite::Connection, sql: &str) -> (r: Result<rusqlite::Statement<'c>, rusqlite::Error>) {
    conn.prepare(sql)
}

/// Relies on `rusqlite::Statement::column_count`: the number of columns in
/// each result line of the statement.
#[verifier::external_body]
pub(crate) fn column_count(stmt: &rusqlite::Statement) -> (r: usize) {
    stmt.column_count()
}

/// Relies on `rusqlite::Statement::query`, with no parameters bound: starts
/// stepping through the result lines.
#[verifier::external_body]
pub(crate) fn start_query<'s>(stmt: &'s mut rusqlite::Statement<'_>) -> (r: Result<rusqlite::Rows<'s>, rusqlite::Error>) {
    stmt.query([])
}

/// Relies on `rusqlite::Rows::next`: the next result line, `None` once all
/// lines are read.
#[verifier::external_body]
pub(crate) fn next_row<'a, 's>(rows: &'a mut rusqlite::Rows<'s>) -> (r: Result<Option<&'a rusqlite::Row<'s>>, rusqlite::Error>) {
    rows.next()
}

/// Relies on `rusqlite::Row::get_ref`: the cell at position `i` with its
/// native storage class, copied out of the engine's buffer.
#[verifier::external_body]
pub(crate) fn cell_at(row: &rusqlite::Row, i: usize) -> (r: Result<Cell, rusqlite::Error>) {
    match row.get_ref(i) {
        Ok(rusqlite::types::ValueRef::Null) => Ok(Cell::Null),
        Ok(rusqlite::types::ValueRef::Integer(n)) => Ok(Cell::Integer(n)),
        Ok(rusqlite::types::ValueRef::Real(f)) => Ok(Cell::Real(f.to_bits())),
        Ok(rusqlite::types::ValueRef::Text(t)) => Ok(Cell::Text(t.to_vec())),
        Ok(rusqlite::types::ValueRef::Blob(b)) => Ok(Cell::Blob(b.to_vec())),
        Err(e) => Err(e),
    }
}

/// Relies on the `Display` impl of `rusqlite::Error`: its message.
#[verifier::external_body]
pub(crate) fn error_text(e: &rusqlite::Error) -> (r: String) {
    e.to_string()
}

} // verus!
