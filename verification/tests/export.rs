//! The export engine: identifier quoting, literal formatting, statement
//! generation and bind planning.

use mdbsql::export::col_type_code;
use mdbsql::export::col_type_from_code;
use mdbsql::export::export;
use mdbsql::export::insert_statement;
use mdbsql::export::literal_string;
use mdbsql::export::plan_bindings;
use mdbsql::export::quote_schema_name;
use mdbsql::export::read_table_outcome;
use mdbsql::export::select_backend;
use mdbsql::export::table_names;
use mdbsql::export::CatalogEntry;
use mdbsql::export::Backend;
use mdbsql::export::ColType;
use mdbsql::export::ColumnBinding;
use mdbsql::export::ExportColumn;
use mdbsql::export::ExportRow;
use mdbsql::export::TableDef;
use mdbsql::export::EXPORT_BIND_SIZE;
use mdbsql::Error;

fn column(name: &str, col_type: ColType, max_len: usize) -> ExportColumn {
    ExportColumn { name: name.to_string(), col_type, max_len }
}

fn table1() -> TableDef {
    TableDef {
        name: "Table1".to_string(),
        columns: vec![
            column("ID", ColType::LongInt, 4),
            column("A", ColType::Text, 100),
        ],
    }
}

fn row_of(cells: &[&str]) -> ExportRow {
    ExportRow { cells: cells.iter().map(|c| c.to_string()).collect() }
}

#[test]
fn quoting_per_backend() {
    assert_eq!(quote_schema_name(Backend::Sqlite, "Table1"), "\"Table1\"");
    assert_eq!(quote_schema_name(Backend::Access, "Table1"), "[Table1]");
    // Embedded quotes are doubled in the double-quoting dialect.
    assert_eq!(quote_schema_name(Backend::Sqlite, "a\"b"), "\"a\"\"b\"");
    assert_eq!(quote_schema_name(Backend::Sqlite, ""), "\"\"");
}

#[test]
fn literal_formatting_by_column_type() {
    assert_eq!(literal_string("Foo", ColType::Text), "\"Foo\"");
    assert_eq!(literal_string("a\"b", ColType::Memo), "\"a\"\"b\"");
    assert_eq!(literal_string("01/01/00 00:00:00", ColType::DateTime), "\"01/01/00 00:00:00\"");
    assert_eq!(literal_string("1", ColType::LongInt), "1");
    assert_eq!(literal_string("1.0000", ColType::Double), "1.0000");
    assert_eq!(literal_string("blob", ColType::Ole), "\"blob\"");
}

#[test]
fn insert_statement_exact_text() {
    let t = table1();
    let stmt = insert_statement(Backend::Sqlite, &t, &row_of(&["1", "Foo"]));
    assert_eq!(stmt, "INSERT INTO \"Table1\" (ID, A) VALUES (1,\"Foo\");");
}

#[test]
fn insert_statement_access_brackets() {
    let t = table1();
    let stmt = insert_statement(Backend::Access, &t, &row_of(&["2", "Bar"]));
    assert_eq!(stmt, "INSERT INTO [Table1] (ID, A) VALUES (2,\"Bar\");");
}

#[test]
fn export_concatenates_one_statement_per_row() {
    let t = table1();
    let rows = vec![row_of(&["1", "Foo"]), row_of(&["2", "Ba\"r"])];
    let dml = export(Backend::Sqlite, &t, &rows);
    assert_eq!(
        dml,
        "INSERT INTO \"Table1\" (ID, A) VALUES (1,\"Foo\");\
         INSERT INTO \"Table1\" (ID, A) VALUES (2,\"Ba\"\"r\");"
    );
}

#[test]
fn export_of_zero_rows_is_empty() {
    // A table with no matching rows produces an empty bulk-DML body.
    let t = table1();
    let rows: Vec<ExportRow> = vec![];
    assert_eq!(export(Backend::Sqlite, &t, &rows), "");
}

#[test]
fn plan_bindings_buffers_and_direct_reads() {
    let cols = vec![
        column("ID", ColType::LongInt, 4),
        column("Doc", ColType::Ole, 0),
        column("A", ColType::Text, 255),
    ];
    let plan = plan_bindings(&cols, EXPORT_BIND_SIZE).unwrap();
    assert_eq!(
        plan,
        vec![
            ColumnBinding::Buffer { capacity: EXPORT_BIND_SIZE },
            ColumnBinding::DirectRead,
            ColumnBinding::Buffer { capacity: EXPORT_BIND_SIZE },
        ]
    );
}

#[test]
fn plan_bindings_rejects_oversized_declared_column() {
    let cols = vec![
        column("ID", ColType::LongInt, 4),
        column("Big", ColType::Text, 600000),
    ];
    match plan_bindings(&cols, EXPORT_BIND_SIZE) {
        Err(Error::MdbSqlError(m)) => {
            assert_eq!(m, "column value capacity exceeds the bind size: Big");
        }
        _ => panic!("expected MdbSqlError"),
    }
    // An OLE column of unbounded declared size is not a violation: it is
    // read directly per row.
    let ole = vec![column("Doc", ColType::Ole, 600000)];
    assert!(plan_bindings(&ole, EXPORT_BIND_SIZE).is_ok());
}

#[test]
fn select_backend_by_name() {
    assert_eq!(select_backend("sqlite").unwrap(), Backend::Sqlite);
    assert_eq!(select_backend("access").unwrap(), Backend::Access);
    match select_backend("oracle") {
        Err(Error::MdbSqlError(m)) => assert_eq!(m, "Invalid backend type: oracle"),
        _ => panic!("expected MdbSqlError"),
    }
}

#[test]
fn read_table_outcome_reports_missing_table() {
    assert!(read_table_outcome("Table1", true).is_ok());
    match read_table_outcome("Missing", false) {
        Err(Error::MdbSqlError(m)) => {
            assert_eq!(m, "Table Missing does not exist in this database.");
        }
        _ => panic!("expected MdbSqlError"),
    }
}

#[test]
fn table_names_filters_system_tables() {
    let entries = vec![
        CatalogEntry { name: "MSysObjects".to_string(), system: true },
        CatalogEntry { name: "Table1".to_string(), system: false },
        CatalogEntry { name: "MSysQueries".to_string(), system: true },
        CatalogEntry { name: "Table2".to_string(), system: false },
    ];
    assert_eq!(table_names(&entries), vec!["Table1", "Table2"]);
    assert_eq!(table_names(&vec![]), Vec::<String>::new());
}

#[test]
fn col_type_codes_round_trip() {
    let all = [
        ColType::Bool,
        ColType::Byte,
        ColType::Int,
        ColType::LongInt,
        ColType::Money,
        ColType::Float,
        ColType::Double,
        ColType::DateTime,
        ColType::Binary,
        ColType::Text,
        ColType::Ole,
        ColType::Memo,
        ColType::RepId,
        ColType::Numeric,
    ];
    for t in all {
        assert_eq!(col_type_from_code(col_type_code(t)), Some(t));
    }
    assert_eq!(col_type_from_code(0), None);
    assert_eq!(col_type_from_code(13), None);
    assert_eq!(col_type_from_code(99), None);
}
