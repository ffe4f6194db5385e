use sqlite_browser::row::{materialize_row, ResultRow};
use sqlite_browser::value::{coerce, float_is_finite, Cell, Value};

#[test]
fn coerce_each_storage_class() {
    assert_eq!(coerce(&Cell::Null), Value::Null);
    assert_eq!(coerce(&Cell::Integer(42)), Value::Integer(42));
    assert_eq!(coerce(&Cell::Integer(i64::MIN)), Value::Integer(i64::MIN));
    assert_eq!(coerce(&Cell::Real(3.5f64.to_bits())), Value::Float(3.5f64.to_bits()));
    assert_eq!(coerce(&Cell::Text(b"hello".to_vec())), Value::Text("hello".to_string()));
    assert_eq!(coerce(&Cell::Blob(vec![0, 1, 2, 255])), Value::BlobPlaceholder);
}

#[test]
fn nan_coerces_to_null() {
    assert_eq!(coerce(&Cell::Real(f64::NAN.to_bits())), Value::Null);
    assert_eq!(coerce(&Cell::Real((-f64::NAN).to_bits())), Value::Null);
}

#[test]
fn infinity_coerces_to_null() {
    assert_eq!(coerce(&Cell::Real(f64::INFINITY.to_bits())), Value::Null);
    assert_eq!(coerce(&Cell::Real(f64::NEG_INFINITY.to_bits())), Value::Null);
}

#[test]
fn finite_extremes_stay_floats() {
    assert!(float_is_finite(f64::MAX.to_bits()));
    assert!(float_is_finite(f64::MIN_POSITIVE.to_bits()));
    assert!(float_is_finite((-0.0f64).to_bits()));
    assert!(!float_is_finite(f64::NAN.to_bits()));
    assert_eq!(coerce(&Cell::Real(f64::MAX.to_bits())), Value::Float(f64::MAX.to_bits()));
}

#[test]
fn invalid_utf8_is_replaced() {
    assert_eq!(
        coerce(&Cell::Text(vec![b'a', 0xff, b'b'])),
        Value::Text("a\u{FFFD}b".to_string())
    );
}

#[test]
fn wire_text_of_values() {
    assert_eq!(Value::BlobPlaceholder.wire_text(), Some("<BLOB>".to_string()));
    assert_eq!(Value::Text("hi".to_string()).wire_text(), Some("hi".to_string()));
    assert_eq!(Value::Integer(1).wire_text(), None);
    assert_eq!(Value::Null.wire_text(), None);
}

#[test]
fn row_insert_overwrites() {
    let mut r = ResultRow::new();
    r.insert("a".to_string(), Value::Integer(1));
    r.insert("b".to_string(), Value::Integer(2));
    r.insert("a".to_string(), Value::Integer(3));
    assert_eq!(r.len(), 2);
    assert_eq!(r.get(&"a".to_string()), Some(&Value::Integer(3)));
    assert_eq!(r.get(&"b".to_string()), Some(&Value::Integer(2)));
    assert_eq!(r.get(&"c".to_string()), None);
    let keys: Vec<&str> = r.entries().iter().map(|e| e.0.as_str()).collect();
    assert_eq!(keys, vec!["a", "b"]);
}

#[test]
fn materialize_duplicate_columns() {
    let names = vec!["x".to_string(), "y".to_string(), "x".to_string()];
    let cells = vec![Cell::Integer(1), Cell::Null, Cell::Blob(vec![9])];
    let r = materialize_row(&names, &cells);
    assert_eq!(r.len(), 2);
    assert_eq!(r.get(&"x".to_string()), Some(&Value::BlobPlaceholder));
    assert_eq!(r.get(&"y".to_string()), Some(&Value::Null));
    let keys: Vec<&str> = r.entries().iter().map(|e| e.0.as_str()).collect();
    assert_eq!(keys, vec!["x", "y"]);
}

#[test]
fn materialize_empty_row() {
    let r = materialize_row(&Vec::new(), &Vec::new());
    assert_eq!(r.len(), 0);
}

#[test]
fn table_names_of_text_cells() {
    let cells = vec![Cell::Text(b"alpha".to_vec()), Cell::Text(vec![b'z', 0xfe])];
    assert_eq!(
        sqlite_browser::db::table_names(&cells),
        Ok(vec!["alpha".to_string(), "z\u{FFFD}".to_string()])
    );
    assert_eq!(sqlite_browser::db::table_names(&Vec::new()), Ok(Vec::new()));
}

#[test]
fn table_names_refuses_non_text() {
    let cells = vec![Cell::Text(b"alpha".to_vec()), Cell::Integer(3)];
    assert_eq!(
        sqlite_browser::db::table_names(&cells),
        Err(sqlite_browser::error::CommandError::Other("a catalog name is not text".to_string()))
    );
}
