use pg_dump::encode::{encode_cell, is_marker_type, CellValue};
use pg_dump::text::{i32_to_dec, i64_to_dec, join_with, quote_escaped, string_has_prefix, string_text_eq, u64_to_dec};

#[test]
fn marker_type_quotes_and_doubles_quotes() {
    let cell = CellValue::Text(String::from("O'Brien"));
    assert_eq!(encode_cell(&cell, "character varying"), "'O''Brien'");
}

#[test]
fn marker_type_families_are_recognized() {
    assert!(is_marker_type("character varying"));
    assert!(is_marker_type("character(10)"));
    assert!(is_marker_type("text"));
    assert!(is_marker_type("timestamp with time zone"));
    assert!(is_marker_type("time without time zone"));
    assert!(is_marker_type("date"));
    assert!(!is_marker_type("integer"));
    assert!(!is_marker_type("bigint"));
    assert!(!is_marker_type("numeric(10,2)"));
    assert!(!is_marker_type("status"));
}

#[test]
fn absent_cell_encodes_exactly_null() {
    assert_eq!(encode_cell(&CellValue::Absent, "integer"), "NULL");
    assert_eq!(encode_cell(&CellValue::Absent, "text"), "NULL");
    assert_eq!(encode_cell(&CellValue::Absent, "character varying"), "NULL");
    assert_ne!(encode_cell(&CellValue::Absent, "text"), "");
    assert_ne!(encode_cell(&CellValue::Absent, "text"), "''");
}

#[test]
fn text_under_marker_type_is_quoted() {
    let cell = CellValue::Text(String::from("hello"));
    assert_eq!(encode_cell(&cell, "text"), "'hello'");
    assert_eq!(encode_cell(&cell, "date"), "'hello'");
}

#[test]
fn text_under_other_type_passes_through() {
    let cell = CellValue::Text(String::from("123"));
    assert_eq!(encode_cell(&cell, "integer"), "123");
}

#[test]
fn integer_cells_encode_in_decimal() {
    assert_eq!(encode_cell(&CellValue::Int32(42), "integer"), "42");
    assert_eq!(encode_cell(&CellValue::Int32(-7), "integer"), "-7");
    assert_eq!(encode_cell(&CellValue::Int64(0), "bigint"), "0");
    assert_eq!(
        encode_cell(&CellValue::Int64(-9223372036854775808), "bigint"),
        "-9223372036854775808"
    );
}

#[test]
fn real_cell_passes_its_rendered_text_through() {
    let cell = CellValue::Real(String::from("3.25"));
    assert_eq!(encode_cell(&cell, "double precision"), "3.25");
}

#[test]
fn boolean_cells_encode_as_words() {
    assert_eq!(encode_cell(&CellValue::Boolean(true), "boolean"), "TRUE");
    assert_eq!(encode_cell(&CellValue::Boolean(false), "boolean"), "FALSE");
}

#[test]
fn fallback_text_is_always_quoted() {
    let cell = CellValue::FallbackText(String::from("open"));
    assert_eq!(encode_cell(&cell, "status"), "'open'");
    let tricky = CellValue::FallbackText(String::from("it's"));
    assert_eq!(encode_cell(&tricky, "status"), "'it''s'");
}

#[test]
fn unrepresentable_cell_degrades_to_null() {
    assert_eq!(encode_cell(&CellValue::Unrepresentable, "weird"), "NULL");
}

#[test]
fn quoting_handles_empty_and_quote_only_text() {
    assert_eq!(quote_escaped(""), "''");
    assert_eq!(quote_escaped("'"), "''''");
    assert_eq!(quote_escaped("a'b"), "'a''b'");
}

#[test]
fn decimal_rendering_covers_the_edges() {
    assert_eq!(u64_to_dec(0), "0");
    assert_eq!(u64_to_dec(18446744073709551615), "18446744073709551615");
    assert_eq!(i64_to_dec(i64::MIN), "-9223372036854775808");
    assert_eq!(i64_to_dec(i64::MAX), "9223372036854775807");
    assert_eq!(i32_to_dec(i32::MIN), "-2147483648");
    assert_eq!(i32_to_dec(-1), "-1");
    assert_eq!(i32_to_dec(10), "10");
}

#[test]
fn prefix_and_equality_tests_work() {
    assert!(string_has_prefix("pg_monitor", "pg_"));
    assert!(!string_has_prefix("postgres", "pg_"));
    assert!(string_has_prefix("md5abc", "md5"));
    assert!(string_has_prefix("anything", ""));
    assert!(!string_has_prefix("pg", "pg_"));
    assert!(string_text_eq("text", "text"));
    assert!(!string_text_eq("text", "tex"));
}

#[test]
fn joining_fragments_uses_the_separator() {
    let empty: Vec<String> = Vec::new();
    assert_eq!(join_with(&empty, ", "), "");
    let one = vec![String::from("a")];
    assert_eq!(join_with(&one, ", "), "a");
    let three = vec![String::from("a"), String::from("b"), String::from("c")];
    assert_eq!(join_with(&three, ", "), "a, b, c");
}
