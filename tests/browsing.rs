use sqlite_browser::db::{connect, get_table_rows, get_tables, AppState};
use sqlite_browser::error::CommandError;
use sqlite_browser::value::{Cell, Value};

fn memory_state(setup: &str) -> AppState {
    let conn = rusqlite::Connection::open_in_memory().unwrap();
    conn.execute_batch(setup).unwrap();
    AppState { db: Some(conn) }
}

fn ids(state: &AppState, limit: Option<i64>, offset: Option<i64>) -> Vec<i64> {
    let rs = get_table_rows("n".to_string(), limit, offset, state).unwrap();
    rs.rows
        .iter()
        .map(|r| match r.get(&"id".to_string()) {
            Some(Value::Integer(i)) => *i,
            other => panic!("unexpected {:?}", other),
        })
        .collect()
}

fn numbers() -> AppState {
    memory_state(
        "CREATE TABLE n (id INTEGER);
         INSERT INTO n VALUES (0),(1),(2),(3),(4),(5),(6),(7),(8),(9);",
    )
}

#[test]
fn not_connected_before_connect() {
    let state = AppState::default();
    assert_eq!(get_tables(&state), Err(CommandError::NotConnected));
    assert!(matches!(
        get_table_rows("t".to_string(), None, None, &state),
        Err(CommandError::NotConnected)
    ));
}

#[test]
fn pagination_all_rows() {
    assert_eq!(ids(&numbers(), None, None), vec![0, 1, 2, 3, 4, 5, 6, 7, 8, 9]);
}

#[test]
fn pagination_zero_limit() {
    assert_eq!(ids(&numbers(), Some(0), None), Vec::<i64>::new());
}

#[test]
fn pagination_window() {
    assert_eq!(ids(&numbers(), Some(3), Some(4)), vec![4, 5, 6]);
    assert_eq!(ids(&numbers(), Some(5), Some(8)), vec![8, 9]);
    assert_eq!(ids(&numbers(), None, Some(7)), vec![7, 8, 9]);
    assert_eq!(ids(&numbers(), Some(4), Some(20)), Vec::<i64>::new());
}

#[test]
fn negative_page_is_refused() {
    assert!(matches!(
        get_table_rows("n".to_string(), Some(-1), None, &numbers()),
        Err(CommandError::Other(_))
    ));
}

#[test]
fn round_trip_storage_classes() {
    let state = memory_state("CREATE TABLE v (a, b, c, d, e);");
    state
        .db
        .as_ref()
        .unwrap()
        .execute(
            "INSERT INTO v VALUES (?1, ?2, ?3, ?4, ?5)",
            (rusqlite::types::Null, 42i64, 3.5f64, "hello", vec![1u8, 2, 3]),
        )
        .unwrap();
    let rs = get_table_rows("v".to_string(), None, None, &state).unwrap();
    assert_eq!(rs.columns, vec!["a", "b", "c", "d", "e"]);
    assert_eq!(rs.rows.len(), 1);
    let r = &rs.rows[0];
    assert_eq!(r.get(&"a".to_string()), Some(&Value::Null));
    assert_eq!(r.get(&"b".to_string()), Some(&Value::Integer(42)));
    assert_eq!(r.get(&"c".to_string()), Some(&Value::Float(3.5f64.to_bits())));
    assert_eq!(r.get(&"d".to_string()), Some(&Value::Text("hello".to_string())));
    assert_eq!(r.get(&"e".to_string()), Some(&Value::BlobPlaceholder));
}

#[test]
fn infinite_real_reads_as_null() {
    let state = memory_state("CREATE TABLE f (x REAL); INSERT INTO f VALUES (9e999), (1.25);");
    let rs = get_table_rows("f".to_string(), None, None, &state).unwrap();
    assert_eq!(rs.rows[0].get(&"x".to_string()), Some(&Value::Null));
    assert_eq!(rs.rows[1].get(&"x".to_string()), Some(&Value::Float(1.25f64.to_bits())));
}

#[test]
fn table_name_with_quote_is_reachable() {
    let state = memory_state(
        "CREATE TABLE \"a\"\"b\" (k TEXT); INSERT INTO \"a\"\"b\" VALUES ('one'), ('two');
         CREATE TABLE a (k TEXT); INSERT INTO a VALUES ('wrong');",
    );
    let rs = get_table_rows("a\"b".to_string(), None, None, &state).unwrap();
    let ks: Vec<Option<&Value>> = rs.rows.iter().map(|r| r.get(&"k".to_string())).collect();
    assert_eq!(
        ks,
        vec![Some(&Value::Text("one".to_string())), Some(&Value::Text("two".to_string()))]
    );
}

#[test]
fn injection_attempt_is_just_a_missing_table() {
    let state = memory_state("CREATE TABLE t (k); INSERT INTO t VALUES (1);");
    let r = get_table_rows("t\"; DROP TABLE t; --".to_string(), None, None, &state);
    assert!(matches!(r, Err(CommandError::EngineError(_))));
    assert_eq!(get_tables(&state), Ok(vec!["t".to_string()]));
}

#[test]
fn missing_table_is_engine_error() {
    let state = memory_state("CREATE TABLE t (k);");
    assert!(matches!(
        get_table_rows("nope".to_string(), None, None, &state),
        Err(CommandError::EngineError(_))
    ));
}

#[test]
fn tables_sorted_by_binary_collation() {
    let state = memory_state(
        "CREATE TABLE zeta (x); CREATE TABLE alpha (x); CREATE TABLE \"Beta\" (x);",
    );
    let expected = vec!["Beta".to_string(), "alpha".to_string(), "zeta".to_string()];
    assert_eq!(get_tables(&state), Ok(expected.clone()));
    assert_eq!(get_tables(&state), Ok(expected));
}

#[test]
fn empty_database_has_no_tables() {
    let state = memory_state("");
    assert_eq!(get_tables(&state), Ok(Vec::new()));
}

#[test]
fn failed_connect_keeps_previous_connection() {
    let mut state = numbers();
    let before = get_tables(&state).unwrap();
    let r = connect("/nonexistent_dir_for_browser/sub/x.db".to_string(), &mut state);
    assert!(matches!(r, Err(CommandError::IoFailure(_))));
    assert_eq!(get_tables(&state), Ok(before));
}

#[test]
fn connect_replaces_connection() {
    let mut state = numbers();
    assert_eq!(connect(":memory:".to_string(), &mut state), Ok(true));
    assert_eq!(get_tables(&state), Ok(Vec::new()));
}

#[test]
fn connect_opens_file() {
    let path = "/tmp/sqlite_browser_connect_opens_file.db";
    {
        let conn = rusqlite::Connection::open(path).unwrap();
        conn.execute_batch("DROP TABLE IF EXISTS items; CREATE TABLE items (id INTEGER, name TEXT); INSERT INTO items VALUES (1, 'x');")
            .unwrap();
    }
    let mut state = AppState::default();
    assert_eq!(connect(path.to_string(), &mut state), Ok(true));
    assert_eq!(get_tables(&state), Ok(vec!["items".to_string()]));
    let rs = get_table_rows("items".to_string(), Some(10), None, &state).unwrap();
    assert_eq!(rs.columns, vec!["id", "name"]);
    assert_eq!(rs.rows.len(), 1);
    assert_eq!(rs.rows[0].get(&"name".to_string()), Some(&Value::Text("x".to_string())));
}

#[test]
fn generated_and_view_columns_are_listed() {
    let state = memory_state(
        "CREATE TABLE g (a INTEGER, b INTEGER GENERATED ALWAYS AS (a * 2) VIRTUAL);
         INSERT INTO g (a) VALUES (4);
         CREATE VIEW w AS SELECT b, a FROM g;",
    );
    let rs = get_table_rows("g".to_string(), None, None, &state).unwrap();
    assert_eq!(rs.columns, vec!["a", "b"]);
    assert_eq!(rs.rows[0].get(&"b".to_string()), Some(&Value::Integer(8)));
    let rs = get_table_rows("w".to_string(), None, None, &state).unwrap();
    assert_eq!(rs.columns, vec!["b", "a"]);
    assert_eq!(rs.rows[0].get(&"a".to_string()), Some(&Value::Integer(4)));
}

#[test]
fn install_replaces_on_success() {
    let mut state = numbers();
    let fresh = rusqlite::Connection::open_in_memory().unwrap();
    fresh.execute_batch("CREATE TABLE only_here (x);").unwrap();
    assert_eq!(sqlite_browser::db::install(Ok(fresh), &mut state), Ok(true));
    assert_eq!(get_tables(&state), Ok(vec!["only_here".to_string()]));
}

#[test]
fn install_keeps_slot_on_failure() {
    let mut state = numbers();
    let r = sqlite_browser::db::install(Err(rusqlite::Error::InvalidQuery), &mut state);
    assert!(matches!(r, Err(CommandError::IoFailure(_))));
    assert_eq!(get_tables(&state), Ok(vec!["n".to_string()]));
}

#[test]
fn assemble_keeps_lines_in_order() {
    let columns = vec!["a".to_string(), "b".to_string()];
    let lines = vec![
        vec![Cell::Integer(1), Cell::Text(b"x".to_vec())],
        vec![Cell::Null, Cell::Blob(vec![0])],
        vec![Cell::Integer(1), Cell::Text(b"x".to_vec())],
    ];
    let rs = sqlite_browser::db::assemble(columns.clone(), &lines);
    assert_eq!(rs.columns, columns);
    assert_eq!(rs.rows.len(), 3);
    assert_eq!(rs.rows[0].get(&"a".to_string()), Some(&Value::Integer(1)));
    assert_eq!(rs.rows[1].get(&"a".to_string()), Some(&Value::Null));
    assert_eq!(rs.rows[1].get(&"b".to_string()), Some(&Value::BlobPlaceholder));
    assert_eq!(rs.rows[2].get(&"b".to_string()), Some(&Value::Text("x".to_string())));
}

#[test]
fn assemble_no_lines() {
    let rs = sqlite_browser::db::assemble(vec!["a".to_string()], &Vec::new());
    assert_eq!(rs.rows.len(), 0);
    assert_eq!(rs.columns, vec!["a".to_string()]);
}
