//! The query/cursor protocol: prepare outcomes, row streaming, and the
//! column snapshot.

use mdbsql::mdbsql::check_nul_free;
use mdbsql::mdbsql::open_outcome;
use mdbsql::mdbsql::prepare_outcome;
use mdbsql::mdbsql::Row;
use mdbsql::mdbsql::Rows;
use mdbsql::mdbsql::SqlColumn;
use mdbsql::mdbsql::SqlValue;
use mdbsql::Error;

fn columns_of(names: &[&str]) -> Vec<SqlColumn> {
    let mut cols: Vec<SqlColumn> = Vec::new();
    for n in names {
        cols.push(SqlColumn::new(n.to_string(), 10));
    }
    cols
}

fn values_of(cells: &[&str]) -> Vec<SqlValue> {
    let mut values: Vec<SqlValue> = Vec::new();
    for c in cells {
        values.push(SqlValue::new(c.to_string()));
    }
    values
}

fn column_names(rows: &Rows) -> Vec<String> {
    rows.columns().iter().map(|c| c.name()).collect()
}

#[test]
fn prepare_success_gives_cursor_with_column_snapshot() {
    let cols = columns_of(&["ID", "A"]);
    let rows = prepare_outcome(None, cols).unwrap();
    assert_eq!(column_names(&rows), vec!["ID", "A"]);
}

#[test]
fn prepare_error_slot_fails_with_mdb_sql_error() {
    let cols = columns_of(&[]);
    let r = prepare_outcome(Some("Table Missing does not exist in this database.".to_string()), cols);
    match r {
        Err(Error::MdbSqlError(m)) => {
            assert_eq!(m, "Table Missing does not exist in this database.");
        }
        _ => panic!("expected MdbSqlError"),
    }
}

#[test]
fn failed_prepare_leaves_connection_usable() {
    // An engine-reported failure surfaces as MdbSqlError and leaves nothing
    // behind: the next prepare with an empty error slot succeeds with its
    // own query's columns.
    let bad = prepare_outcome(Some("no such table".to_string()), columns_of(&[]));
    assert!(matches!(bad, Err(Error::MdbSqlError(_))));

    let good = prepare_outcome(None, columns_of(&["ID"])).unwrap();
    assert_eq!(column_names(&good), vec!["ID"]);
}

#[test]
fn cursor_yields_one_row_per_fetch_then_ends() {
    let mut rows = prepare_outcome(None, columns_of(&["ID"])).unwrap();
    let fetched: Vec<Row> = [
        values_of(&["1"]),
        values_of(&["2"]),
        values_of(&["3"]),
    ]
    .into_iter()
    .map(|v| rows.next(Some(v)).unwrap())
    .collect();
    assert_eq!(fetched.len(), 3);
    assert_eq!(fetched[0].get::<u32>(0).unwrap(), 1u32);
    assert_eq!(fetched[1].get::<u32>(0).unwrap(), 2u32);
    assert_eq!(fetched[2].get::<u32>(0).unwrap(), 3u32);
    assert!(rows.next(None).is_none());
    // The column snapshot is unchanged by consumption.
    assert_eq!(column_names(&rows), vec!["ID"]);
}

#[test]
fn connection() {
    // One row of Table1 through the cursor protocol, as the engine binds
    // and exposes it for `select * from Table1 where ID=1`.
    let cols = columns_of(&["ID", "A", "B", "C", "D", "E", "F"]);
    let mut rows = prepare_outcome(None, cols).unwrap();
    assert_eq!(column_names(&rows), vec!["ID", "A", "B", "C", "D", "E", "F"]);

    let row = rows
        .next(Some(values_of(&[
            "1",
            "Foo",
            "1",
            "1.0000",
            "01/01/00 00:00:00",
            "1",
            "<div><font face=Calibri>FooBar</font></div>",
        ])))
        .unwrap();

    assert_eq!(row.get::<u64>(0).unwrap(), 1u64);
    assert_eq!(row.get::<String>(1).unwrap(), "Foo");
    assert_eq!(row.get::<i64>(2).unwrap(), 1i64);
    assert_eq!(row.get::<String>(3).unwrap(), "1.0000");
    assert_eq!(row.get::<String>(4).unwrap(), "01/01/00 00:00:00");
    assert_eq!(row.get::<u8>(5).unwrap(), 1u8);
    assert_eq!(
        row.get::<String>(6).unwrap(),
        "<div><font face=Calibri>FooBar</font></div>"
    );
    assert!(rows.next(None).is_none());
}

#[test]
fn check_nul_free_finds_first_embedded_nul() {
    assert!(check_nul_free("select * from Table1").is_ok());
    assert!(check_nul_free("").is_ok());
    assert!(matches!(
        check_nul_free("ab\0cd\0"),
        Err(Error::NulError(2))
    ));
}

#[test]
fn open_outcome_classifies_path_and_file_failures() {
    assert!(open_outcome("test.mdb", true, true).is_ok());
    match open_outcome("missing.mdb", false, false) {
        Err(Error::InvalidPath(p)) => assert_eq!(p, "missing.mdb"),
        _ => panic!("expected InvalidPath"),
    }
    match open_outcome("notadb.mdb", true, false) {
        Err(Error::InvalidMdbFile(p)) => assert_eq!(p, "notadb.mdb"),
        _ => panic!("expected InvalidMdbFile"),
    }
}

#[test]
fn error_messages_render() {
    assert_eq!(
        Error::InvalidPath("x.mdb".to_string()).message(),
        "invalid path: x.mdb"
    );
    assert_eq!(
        Error::InvalidMdbFile("x.mdb".to_string()).message(),
        "invalid mdb file: x.mdb"
    );
    assert_eq!(Error::MdbSqlError("boom".to_string()).message(), "boom");
    assert_eq!(
        Error::NulError(2).message(),
        "nul byte found in provided data at position: 2"
    );
    assert_eq!(
        Error::InvalidRowIndex(7).message(),
        "invalid index to row results: 7"
    );
    assert_eq!(Error::FromSqlError("bad".to_string()).message(), "bad");
}

#[test]
fn sql_value_and_column_accessors() {
    let v = SqlValue::new(" 12 ".to_string());
    assert_eq!(v.get().unwrap(), " 12 ");
    let c = SqlColumn::new("ID".to_string(), 3);
    assert_eq!(c.name(), "ID");
    assert_eq!(c.bind_type(), 3);
}
