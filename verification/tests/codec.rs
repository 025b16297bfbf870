//! The value codec: trimming and typed decoding of cell text.

use mdbsql::mdbsql::Row;
use mdbsql::mdbsql::SqlValue;
use mdbsql::text::str_equal;
use mdbsql::text::trim_cell;
use mdbsql::text::udec_string;
use mdbsql::Error;

fn row_of(cells: &[&str]) -> Row {
    let mut values: Vec<SqlValue> = Vec::new();
    for c in cells {
        values.push(SqlValue::new(c.to_string()));
    }
    Row::new(values)
}

#[test]
fn get_decodes_unsigned_integers() {
    let row = row_of(&["0", "255", "4294967295", "18446744073709551615"]);
    assert_eq!(row.get::<u8>(0).unwrap(), 0u8);
    assert_eq!(row.get::<u8>(1).unwrap(), 255u8);
    assert_eq!(row.get::<u32>(2).unwrap(), 4294967295u32);
    assert_eq!(row.get::<u64>(3).unwrap(), 18446744073709551615u64);
}

#[test]
fn get_decodes_signed_integers() {
    let row = row_of(&["-1", "+42", "-9223372036854775808", "9223372036854775807"]);
    assert_eq!(row.get::<i64>(0).unwrap(), -1i64);
    assert_eq!(row.get::<i64>(1).unwrap(), 42i64);
    assert_eq!(row.get::<i64>(2).unwrap(), i64::MIN);
    assert_eq!(row.get::<i64>(3).unwrap(), i64::MAX);
}

#[test]
fn get_decodes_strings_verbatim() {
    let row = row_of(&["Foo", "", "a b c"]);
    assert_eq!(row.get::<String>(0).unwrap(), "Foo");
    assert_eq!(row.get::<String>(1).unwrap(), "");
    assert_eq!(row.get::<String>(2).unwrap(), "a b c");
}

#[test]
fn get_trims_surrounding_whitespace_before_decoding() {
    let row = row_of(&["  42\t", "\n Foo \r", "\t-7 "]);
    assert_eq!(row.get::<u64>(0).unwrap(), 42u64);
    assert_eq!(row.get::<String>(1).unwrap(), "Foo");
    assert_eq!(row.get::<i64>(2).unwrap(), -7i64);
}

#[test]
fn get_fails_with_invalid_row_index_out_of_range() {
    let row = row_of(&["1", "2"]);
    assert!(matches!(row.get::<u64>(2), Err(Error::InvalidRowIndex(2))));
    assert!(matches!(row.get::<String>(9), Err(Error::InvalidRowIndex(9))));
    assert!(row.get::<u64>(1).is_ok());
}

#[test]
fn get_fails_with_from_sql_error_on_undecodable_text() {
    let row = row_of(&["Foo", "-1", "256", "18446744073709551616", "", "1 2"]);
    assert!(matches!(row.get::<u64>(0), Err(Error::FromSqlError(_))));
    assert!(matches!(row.get::<u64>(1), Err(Error::FromSqlError(_))));
    assert!(matches!(row.get::<u8>(2), Err(Error::FromSqlError(_))));
    assert!(matches!(row.get::<u64>(3), Err(Error::FromSqlError(_))));
    assert!(matches!(row.get::<i64>(4), Err(Error::FromSqlError(_))));
    assert!(matches!(row.get::<u64>(5), Err(Error::FromSqlError(_))));
}

#[test]
fn trim_cell_strips_only_surrounding_whitespace() {
    assert_eq!(trim_cell("  a b  "), "a b");
    assert_eq!(trim_cell(""), "");
    assert_eq!(trim_cell(" \t\r\n"), "");
    assert_eq!(trim_cell("x"), "x");
    assert_eq!(trim_cell("\tx y\n"), "x y");
}

#[test]
fn udec_string_renders_decimal() {
    assert_eq!(udec_string(0), "0");
    assert_eq!(udec_string(7), "7");
    assert_eq!(udec_string(10), "10");
    assert_eq!(udec_string(200000), "200000");
    assert_eq!(udec_string(u64::MAX), "18446744073709551615");
}

#[test]
fn rendered_numbers_decode_back() {
    for n in [0u64, 7, 10, 4096, 200000, u64::MAX] {
        let s = udec_string(n);
        let row = row_of(&[s.as_str()]);
        assert_eq!(row.get::<u64>(0).unwrap(), n);
    }
}

#[test]
fn str_equal_matches_string_equality() {
    assert!(str_equal("", ""));
    assert!(str_equal("abc", "abc"));
    assert!(!str_equal("abc", "abd"));
    assert!(!str_equal("abc", "abcd"));
}
