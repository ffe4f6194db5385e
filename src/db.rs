use vstd::prelude::*;
use vstd::string::StringExecFns;
use crate::error::CommandError;
use crate::query::{build_scan, build_columns_query, page_is_valid, negative_page_text};
use crate::row::{ResultRow, materialize_row, name_views, row_map, first_occurrences, lemma_nan_cell_reads_null, lemma_round_trip_row};
use crate::value::{ValueModel, is_nan_bits};
use crate::sqlite::{open_connection, prepare, column_count, start_query, next_row, cell_at, error_text};
use crate::value::{Cell, Value, coerce, utf8_lossy};

verus! {

/// The catalog query that lists the user tables, sorted by name.
pub const TABLES_QUERY: &'static str = "SELECT name FROM sqlite_master WHERE type='table' ORDER BY name";

/// The connection slot: at most one open database at a time.
pub struct AppState {
    pub db: Option<rusqlite::Connection>,
}

impl Default for AppState {
    fn default() -> (r: Self)
        ensures
            r.db is None,
    {
        AppState { db: None }
    }
}

/// The envelope of one scan: the column names in positional order, and the
/// rows in the engine's scan order.
pub struct ResultSet {
    pub columns: Vec<String>,
    pub rows: Vec<ResultRow>,
}

/// `rs` holds `columns` and, in order, one row per line of `lines`: each line's
/// cells coerced and laid out under the column names as [`materialize_row`] does.
pub open spec fn assembled(rs: ResultSet, columns: Seq<String>, lines: Seq<Vec<Cell>>) -> bool {
    &&& rs.columns@ == columns
    &&& rs.rows@.len() == lines.len()
    &&& forall|k: int| 0 <= k < lines.len() ==> {
        &&& (#[trigger] rs.rows@[k]).wf()
        &&& rs.rows@[k]@ == row_map(name_views(columns), lines[k]@)
        &&& rs.rows@[k].keys() == first_occurrences(name_views(columns))
    }
}

/// `names` are the texts of `cells`, one for each, in order.
pub open spec fn decoded_names(cells: Seq<Cell>, names: Seq<String>) -> bool {
    &&& names.len() == cells.len()
    &&& forall|i: int| 0 <= i < cells.len() ==> (#[trigger] cells[i]) is Text
        && names[i]@ == utf8_lossy(cells[i]->Text_0@)
}

pub open spec fn too_many_rows_text() -> Seq<char> {
    "too many rows"@
}

pub open spec fn name_not_text_text() -> Seq<char> {
    "a catalog name is not text"@
}

pub open spec fn columns_mismatch_text() -> Seq<char> {
    "the result columns do not match the catalog"@
}

/// The messages of the engine's own guard failures differ from the one of a
/// refused page.
proof fn lemma_guard_texts_differ()
    ensures
        too_many_rows_text() != negative_page_text(),
        name_not_text_text() != negative_page_text(),
        columns_mismatch_text() != negative_page_text(),
{
    reveal_strlit("too many rows");
    reveal_strlit("a catalog name is not text");
    reveal_strlit("the result columns do not match the catalog");
    reveal_strlit("limit and offset must not be negative");
    assert(too_many_rows_text().len() != negative_page_text().len());
    assert(name_not_text_text().len() != negative_page_text().len());
    assert(columns_mismatch_text().len() != negative_page_text().len());
}

fn engine_error(e: &rusqlite::Error) -> (r: CommandError)
    ensures
        r is EngineError,
{
    CommandError::EngineError(error_text(e))
}

/// Settles an open attempt: an opened connection replaces the one held
/// before, which is dropped; a failed one leaves the slot as it was.
pub fn install(opened: Result<rusqlite::Connection, rusqlite::Error>, state: &mut AppState) -> (r: Result<bool, CommandError>)
    ensures
        opened is Ok ==> r == Ok::<bool, CommandError>(true) && final(state).db == Some(opened->Ok_0),
        opened is Err ==> r is Err && r->Err_0 is IoFailure && *final(state) == *old(state),
{
    match opened {
        Ok(conn) => {
            state.db = Some(conn);
            Ok(true)
        },
        Err(e) => Err(CommandError::IoFailure(error_text(&e))),
    }
}

/// Opens the database at `path` and, on success only, puts it in the slot in
/// place of the connection held before. A failed open leaves the slot as it was.
pub fn connect(path: String, state: &mut AppState) -> (r: Result<bool, CommandError>)
    ensures
        r is Ok ==> r->Ok_0 && final(state).db is Some,
        r is Err ==> r->Err_0 is IoFailure && *final(state) == *old(state),
{
    install(open_connection(path.as_str()), state)
}

/// Runs a catalog query on `conn` and collects the first cell of each result line.
fn first_column_cells(conn: &rusqlite::Connection, sql: &str) -> (r: Result<Vec<Cell>, CommandError>)
    ensures
        r is Err ==> (r->Err_0 is EngineError || (r->Err_0 is Other
            && r->Err_0->Other_0@ == too_many_rows_text())),
{
    let mut stmt = match prepare(conn, sql) {
        Ok(s) => s,
        Err(e) => return Err(engine_error(&e)),
    };
    let mut rows = match start_query(&mut stmt) {
        Ok(rs) => rs,
        Err(e) => return Err(engine_error(&e)),
    };
    let mut cells: Vec<Cell> = Vec::new();
    loop
        decreases usize::MAX - cells@.len(),
    {
        if cells.len() == usize::MAX {
            return Err(CommandError::Other(String::from_str("too many rows")));
        }
        match next_row(&mut rows) {
            Err(e) => return Err(engine_error(&e)),
            Ok(None) => break,
            Ok(Some(row)) => {
                match cell_at(row, 0) {
                    Ok(c) => cells.push(c),
                    Err(e) => return Err(engine_error(&e)),
                }
            },
        }
    }
    Ok(cells)
}

/// The names held by catalog cells, each decoded as text, in order; refused
/// unless every cell is text.
pub fn table_names(cells: &Vec<Cell>) -> (r: Result<Vec<String>, CommandError>)
    ensures
        r is Ok <==> forall|i: int| 0 <= i < cells@.len() ==> cells@[i] is Text,
        r is Ok ==> decoded_names(cells@, r->Ok_0@),
        r is Err ==> r->Err_0 is Other && r->Err_0->Other_0@ == name_not_text_text(),
{
    let mut names: Vec<String> = Vec::new();
    let mut i: usize = 0;
    while i < cells.len()
        invariant
            i <= cells@.len(),
            names@.len() == i,
            forall|j: int| 0 <= j < i ==> cells@[j] is Text,
            forall|j: int| 0 <= j < i ==> names@[j]@ == utf8_lossy(cells@[j]->Text_0@),
        decreases cells@.len() - i,
    {
        match coerce(&cells[i]) {
            Value::Text(name) => names.push(name),
            _ => return Err(CommandError::Other(String::from_str("a catalog name is not text"))),
        }
        i = i + 1;
    }
    Ok(names)
}

/// The names of the user tables of the held database, as the catalog query
/// [`TABLES_QUERY`] returns them: ascending by name.
pub fn get_tables(state: &AppState) -> (r: Result<Vec<String>, CommandError>)
    ensures
        state.db is None <==> (r is Err && r->Err_0 is NotConnected),
        r is Err ==> (r->Err_0 is NotConnected || r->Err_0 is EngineError || r->Err_0 is Other),
        r is Ok ==> exists|cells: Seq<Cell>| #[trigger] decoded_names(cells, r->Ok_0@),
{
    let conn = match &state.db {
        Some(c) => c,
        None => return Err(CommandError::NotConnected),
    };
    let cells = match first_column_cells(conn, TABLES_QUERY) {
        Ok(c) => c,
        Err(e) => return Err(e),
    };
    table_names(&cells)
}

/// Reads the cells of one result line, one per column.
fn read_cells(row: &rusqlite::Row, n: usize) -> (r: Result<Vec<Cell>, CommandError>)
    ensures
        r is Ok ==> r->Ok_0@.len() == n,
        r is Err ==> r->Err_0 is EngineError,
{
    let mut cells: Vec<Cell> = Vec::new();
    let mut i: usize = 0;
    while i < n
        invariant
            i <= n,
            cells@.len() == i,
        decreases n - i,
    {
        match cell_at(row, i) {
            Ok(c) => cells.push(c),
            Err(e) => return Err(engine_error(&e)),
        }
        i = i + 1;
    }
    Ok(cells)
}

/// Bundles `columns` with one row per line of `lines`, in order.
pub fn assemble(columns: Vec<String>, lines: &Vec<Vec<Cell>>) -> (r: ResultSet)
    requires
        forall|k: int| 0 <= k < lines@.len() ==> (#[trigger] lines@[k])@.len() == columns@.len(),
    ensures
        assembled(r, columns@, lines@),
{
    let mut rows: Vec<ResultRow> = Vec::new();
    let mut k: usize = 0;
    while k < lines.len()
        invariant
            k <= lines@.len(),
            forall|j: int| 0 <= j < lines@.len() ==> (#[trigger] lines@[j])@.len() == columns@.len(),
            rows@.len() == k,
            forall|j: int| 0 <= j < k ==> {
                &&& (#[trigger] rows@[j]).wf()
                &&& rows@[j]@ == row_map(name_views(columns@), lines@[j]@)
                &&& rows@[j].keys() == first_occurrences(name_views(columns@))
            },
        decreases lines@.len() - k,
    {
        let line = materialize_row(&columns, &lines[k]);
        rows.push(line);
        k = k + 1;
    }
    ResultSet { columns, rows }
}

/// Runs `query` on `conn`, collects every result line, and assembles them
/// under `columns`, which must name as many columns as the statement yields.
/// Either the whole result is materialized or an error comes back with no rows.
pub fn scan(conn: &rusqlite::Connection, query: &str, columns: Vec<String>) -> (r: Result<ResultSet, CommandError>)
    ensures
        r is Ok ==> exists|lines: Seq<Vec<Cell>>| #[trigger] assembled(r->Ok_0, columns@, lines),
        r is Err ==> (r->Err_0 is EngineError || (r->Err_0 is Other && (r->Err_0->Other_0@
            == too_many_rows_text() || r->Err_0->Other_0@ == columns_mismatch_text()))),
{
    let ghost given = columns@;
    let mut stmt = match prepare(conn, query) {
        Ok(s) => s,
        Err(e) => return Err(engine_error(&e)),
    };
    if column_count(&stmt) != columns.len() {
        return Err(CommandError::Other(String::from_str("the result columns do not match the catalog")));
    }
    let mut rows = match start_query(&mut stmt) {
        Ok(rs) => rs,
        Err(e) => return Err(engine_error(&e)),
    };
    let mut lines: Vec<Vec<Cell>> = Vec::new();
    loop
        invariant
            forall|k: int| 0 <= k < lines@.len() ==> (#[trigger] lines@[k])@.len() == columns@.len(),
        decreases usize::MAX - lines@.len(),
    {
        if lines.len() == usize::MAX {
            return Err(CommandError::Other(String::from_str("too many rows")));
        }
        match next_row(&mut rows) {
            Err(e) => return Err(engine_error(&e)),
            Ok(None) => break,
            Ok(Some(row)) => {
                match read_cells(row, columns.len()) {
                    Ok(c) => lines.push(c),
                    Err(e) => return Err(e),
                }
            },
        }
    }
    let ghost cols = columns@;
    let rs = assemble(columns, &lines);
    assert(cols == given);
    assert(assembled(rs, given, lines@));
    let r = Ok(rs);
    assert(r->Ok_0 == rs);
    r
}

/// Scans a page of `table` in the held database: `limit` rows at most (all
/// of them when absent), after skipping `offset` rows (none when absent).
///
/// The column names come from the catalog (`pragma_table_xinfo`), read as
/// cells and decoded lossily: rusqlite's statement metadata panics on a name
/// that is not UTF-8. Nothing is asked of the engine when no database is
/// held or the page is refused.
pub fn get_table_rows(table: String, limit: Option<i64>, offset: Option<i64>, state: &AppState) -> (r: Result<ResultSet, CommandError>)
    ensures
        state.db is None ==> r == Err::<ResultSet, CommandError>(CommandError::NotConnected),
        r is Err && r->Err_0 is NotConnected ==> state.db is None,
        state.db is Some && !page_is_valid(limit, offset) ==> r is Err && r->Err_0 is Other
            && r->Err_0->Other_0@ == negative_page_text(),
        state.db is Some && page_is_valid(limit, offset) && r is Err ==> (r->Err_0 is EngineError
            || (r->Err_0 is Other && r->Err_0->Other_0@ != negative_page_text())),
        r is Ok ==> state.db is Some && page_is_valid(limit, offset),
        r is Ok ==> exists|cells: Seq<Cell>| #[trigger] decoded_names(cells, r->Ok_0.columns@),
        r is Ok ==> exists|lines: Seq<Vec<Cell>>| #[trigger] assembled(r->Ok_0, r->Ok_0.columns@, lines),
        r is Err ==> (r->Err_0 is NotConnected || r->Err_0 is EngineError || r->Err_0 is Other),
{
    let conn = match &state.db {
        Some(c) => c,
        None => return Err(CommandError::NotConnected),
    };
    let query = match build_scan(table.as_str(), limit, offset) {
        Ok(q) => q,
        Err(e) => return Err(e),
    };
    proof {
        lemma_guard_texts_differ();
    }
    let catalog = build_columns_query(table.as_str());
    let cells = match first_column_cells(conn, catalog.as_str()) {
        Ok(c) => c,
        Err(e) => return Err(e),
    };
    let columns = match table_names(&cells) {
        Ok(n) => n,
        Err(e) => return Err(e),
    };
    let ghost names = columns@;
    let r = scan(conn, query.as_str(), columns);
    proof {
        if r is Ok {
            assert(r->Ok_0.columns@ == names);
        }
    }
    r
}

/// In an assembled result, a NaN cell reads back as `Null` in its row, under
/// a column name that no later column repeats.
pub proof fn lemma_result_nan_is_null(rs: ResultSet, columns: Seq<String>, lines: Seq<Vec<Cell>>, k: int, i: int)
    requires
        assembled(rs, columns, lines),
        lines[k]@.len() == columns.len(),
        0 <= k < lines.len(),
        0 <= i < columns.len(),
        forall|j: int| i < j < columns.len() ==> columns[j]@ != columns[i]@,
        lines[k]@[i] is Real,
        is_nan_bits(lines[k]@[i]->Real_0),
    ensures
        rs.rows@[k]@[columns[i]@] == ValueModel::Null,
{
    let names = name_views(columns);
    assert forall|j: int| i < j < names.len() implies names[j] != names[i] by {}
    lemma_nan_cell_reads_null(names, lines[k]@, i);
}

/// A result assembled from one line of NULL, 42, 3.5, a text and a blob under
/// five distinct column names holds exactly that one row, read back as
/// `Null`, `Integer(42)`, `Float(3.5)`, the decoded text and the placeholder.
pub proof fn lemma_result_round_trip(rs: ResultSet, columns: Seq<String>, lines: Seq<Vec<Cell>>)
    requires
        assembled(rs, columns, lines),
        lines.len() == 1,
        columns.len() == 5,
        name_views(columns).no_duplicates(),
        lines[0]@.len() == 5,
        lines[0]@[0] is Null,
        lines[0]@[1] == Cell::Integer(42),
        lines[0]@[2] == Cell::Real(0x400c_0000_0000_0000u64),
        lines[0]@[3] is Text,
        lines[0]@[4] is Blob,
    ensures
        rs.rows@.len() == 1,
        rs.rows@[0]@ == map![
            columns[0]@ => ValueModel::Null,
            columns[1]@ => ValueModel::Integer(42),
            columns[2]@ => ValueModel::Float(0x400c_0000_0000_0000u64),
            columns[3]@ => ValueModel::Text(utf8_lossy(lines[0]@[3]->Text_0@)),
            columns[4]@ => ValueModel::BlobPlaceholder,
        ],
{
    lemma_round_trip_row(name_views(columns), lines[0]@);
}

} // verus!
