//! The table export engine: for a named table, a bulk DML text holding one
//! `INSERT` statement per source row, with destination-dialect identifier
//! quoting, per-column literal formatting, and bind-buffer planning with a
//! dedicated path for large binary (OLE) columns.

use vstd::prelude::*;

use crate::error::Error;
use crate::error::ErrorView;
use crate::text::push_char;
use crate::text::str_equal;

verus! {

/// The engine's column types.
#[derive(Clone, Copy, Debug, PartialEq, Eq, Structural)]
pub enum ColType {
    Bool,
    Byte,
    Int,
    LongInt,
    Money,
    Float,
    Double,
    DateTime,
    Binary,
    Text,
    Ole,
    Memo,
    RepId,
    Numeric,
}

pub open spec fn col_type_code_spec(t: ColType) -> u32 {
    match t {
        ColType::Bool => 1,
        ColType::Byte => 2,
        ColType::Int => 3,
        ColType::LongInt => 4,
        ColType::Money => 5,
        ColType::Float => 6,
        ColType::Double => 7,
        ColType::DateTime => 8,
        ColType::Binary => 9,
        ColType::Text => 10,
        ColType::Ole => 11,
        ColType::Memo => 12,
        ColType::RepId => 15,
        ColType::Numeric => 16,
    }
}

/// The engine's numeric code for a column type.
pub fn col_type_code(t: ColType) -> (r: u32)
    ensures
        r == col_type_code_spec(t),
{
    match t {
        ColType::Bool => 1,
        ColType::Byte => 2,
        ColType::Int => 3,
        ColType::LongInt => 4,
        ColType::Money => 5,
        ColType::Float => 6,
        ColType::Double => 7,
        ColType::DateTime => 8,
        ColType::Binary => 9,
        ColType::Text => 10,
        ColType::Ole => 11,
        ColType::Memo => 12,
        ColType::RepId => 15,
        ColType::Numeric => 16,
    }
}

/// The column type behind an engine code, if the code is known.
pub fn col_type_from_code(code: u32) -> (r: Option<ColType>)
    ensures
        r matches Some(t) ==> col_type_code_spec(t) == code,
        (r is None) <==> !(1 <= code <= 12 || code == 15 || code == 16),
{
    match code {
        1 => Some(ColType::Bool),
        2 => Some(ColType::Byte),
        3 => Some(ColType::Int),
        4 => Some(ColType::LongInt),
        5 => Some(ColType::Money),
        6 => Some(ColType::Float),
        7 => Some(ColType::Double),
        8 => Some(ColType::DateTime),
        9 => Some(ColType::Binary),
        10 => Some(ColType::Text),
        11 => Some(ColType::Ole),
        12 => Some(ColType::Memo),
        15 => Some(ColType::RepId),
        16 => Some(ColType::Numeric),
        _ => None,
    }
}

/// The destination SQL dialect used for identifier quoting.
#[derive(Clone, Copy, Debug, PartialEq, Eq, Structural)]
pub enum Backend {
    /// Bracket-quoted identifiers.
    Access,
    /// Double-quoted identifiers with embedded quotes doubled.
    Sqlite,
}

/// `s` with every occurrence of `q` doubled.
pub open spec fn escaped_text(s: Seq<char>, q: char) -> Seq<char>
    decreases s.len(),
{
    if s.len() == 0 {
        Seq::empty()
    } else if s[0] == q {
        seq![q, q] + escaped_text(s.skip(1), q)
    } else {
        seq![s[0]] + escaped_text(s.skip(1), q)
    }
}

/// Undoes `escaped_text`: every doubled `q` collapses back to one.
pub open spec fn unescaped_text(s: Seq<char>, q: char) -> Seq<char>
    decreases s.len(),
{
    if s.len() == 0 {
        Seq::empty()
    } else if s.len() >= 2 && s[0] == q && s[1] == q {
        seq![q] + unescaped_text(s.skip(2), q)
    } else {
        seq![s[0]] + unescaped_text(s.skip(1), q)
    }
}

/// An identifier quoted for the destination dialect.
pub open spec fn backend_quoted_name(b: Backend, name: Seq<char>) -> Seq<char> {
    match b {
        Backend::Access => seq!['['] + name + seq![']'],
        Backend::Sqlite => seq!['"'] + escaped_text(name, '"') + seq!['"'],
    }
}

proof fn lemma_escaped_snoc(s: Seq<char>, c: char, q: char)
    ensures
        escaped_text(s.push(c), q) == escaped_text(s, q) + (if c == q {
            seq![q, q]
        } else {
            seq![c]
        }),
    decreases s.len(),
{
    let step: Seq<char> = if c == q {
        seq![q, q]
    } else {
        seq![c]
    };
    if s.len() == 0 {
        assert(s.push(c)[0] == c);
        assert(s.push(c).skip(1) =~= s);
        assert(escaped_text(s, q) == Seq::<char>::empty());
        assert(escaped_text(s.push(c), q) =~= step);
        assert(escaped_text(s, q) + step =~= step);
    } else {
        assert(s.push(c)[0] == s[0]);
        assert(s.push(c).skip(1) =~= s.skip(1).push(c));
        lemma_escaped_snoc(s.skip(1), c, q);
        if s[0] == q {
            assert(escaped_text(s.push(c), q) == seq![q, q] + escaped_text(s.skip(1).push(c), q));
            assert(seq![q, q] + (escaped_text(s.skip(1), q) + step) =~= (seq![q, q] + escaped_text(
                s.skip(1),
                q,
            )) + step);
        } else {
            assert(escaped_text(s.push(c), q) == seq![s[0]] + escaped_text(
                s.skip(1).push(c),
                q,
            ));
            assert(seq![s[0]] + (escaped_text(s.skip(1), q) + step) =~= (seq![s[0]]
                + escaped_text(s.skip(1), q)) + step);
        }
    }
}

/// Law: unescaping inverts escaping — quoting a value for the destination
/// dialect and unquoting it reproduces the value exactly, for every text
/// and every quote character.
pub proof fn lemma_escape_unescape_roundtrip(s: Seq<char>, q: char)
    ensures
        unescaped_text(escaped_text(s, q), q) == s,
    decreases s.len(),
{
    if s.len() == 0 {
        assert(unescaped_text(escaped_text(s, q), q) =~= s);
    } else {
        let rest = escaped_text(s.skip(1), q);
        lemma_escape_unescape_roundtrip(s.skip(1), q);
        if s[0] == q {
            let e = seq![q, q] + rest;
            assert(escaped_text(s, q) == e);
            assert(e.len() >= 2 && e[0] == q && e[1] == q);
            assert(e.skip(2) =~= rest);
            assert(unescaped_text(e, q) == seq![q] + unescaped_text(rest, q));
            assert(seq![q] + s.skip(1) =~= s);
        } else {
            let e = seq![s[0]] + rest;
            assert(escaped_text(s, q) == e);
            assert(e[0] == s[0]);
            if e.len() >= 2 && e[0] == q && e[1] == q {
                assert(false);
            }
            assert(e.skip(1) =~= rest);
            assert(unescaped_text(e, q) == seq![s[0]] + unescaped_text(rest, q));
            assert(seq![s[0]] + s.skip(1) =~= s);
        }
    }
}

/// Appends `s` with every `q` doubled.
fn append_escaped(buf: &mut String, s: &str, q: char)
    ensures
        final(buf)@ == old(buf)@ + escaped_text(s@, q),
{
    let len = s.unicode_len();
    let mut i: usize = 0;
    while i < len
        invariant
            0 <= i <= len,
            len == s@.len(),
            buf@ == old(buf)@ + escaped_text(s@.take(i as int), q),
        decreases len - i,
    {
        let c = s.get_char(i);
        if c == q {
            push_char(buf, q);
            push_char(buf, q);
        } else {
            push_char(buf, c);
        }
        proof {
            assert(s@.take(i + 1) =~= s@.take(i as int).push(s@[i as int]));
            lemma_escaped_snoc(s@.take(i as int), s@[i as int], q);
            if s@[i as int] == q {
                assert((old(buf)@ + escaped_text(s@.take(i as int), q)) + seq![q, q] =~= old(
                    buf,
                )@ + (escaped_text(s@.take(i as int), q) + seq![q, q]));
            } else {
                assert((old(buf)@ + escaped_text(s@.take(i as int), q)) + seq![s@[i as int]] =~= old(
                    buf,
                )@ + (escaped_text(s@.take(i as int), q) + seq![s@[i as int]]));
            }
        }
        i = i + 1;
    }
    proof {
        assert(s@.take(len as int) =~= s@);
    }
}

/// Quotes an identifier for the destination dialect.
pub fn quote_schema_name(b: Backend, name: &str) -> (r: String)
    ensures
        r@ == backend_quoted_name(b, name@),
{
    match b {
        Backend::Access => {
            let mut buf = String::new();
            push_char(&mut buf, '[');
            buf.append(name);
            push_char(&mut buf, ']');
            proof {
                assert(buf@ =~= seq!['['] + name@ + seq![']']);
            }
            buf
        },
        Backend::Sqlite => {
            let mut buf = String::new();
            push_char(&mut buf, '"');
            append_escaped(&mut buf, name, '"');
            push_char(&mut buf, '"');
            proof {
                assert(buf@ =~= seq!['"'] + escaped_text(name@, '"') + seq!['"']);
            }
            buf
        },
    }
}

/// Selects the destination dialect by its engine name; any other name
/// fails with the engine's wording.
pub fn select_backend(backend_name: &str) -> (r: Result<Backend, Error>)
    ensures
        backend_name@ == "access"@ ==> (r matches Ok(b) && b == Backend::Access),
        backend_name@ == "sqlite"@ ==> (r matches Ok(b) && b == Backend::Sqlite),
        !(backend_name@ == "access"@ || backend_name@ == "sqlite"@) ==> (r matches Err(e) && e@
            == ErrorView::MdbSqlError("Invalid backend type: "@ + backend_name@)),
{
    proof {
        reveal_strlit("access");
        reveal_strlit("sqlite");
        assert("access"@[0] == 'a');
        assert("sqlite"@[0] == 's');
        assert("access"@ != "sqlite"@);
    }
    if str_equal(backend_name, "access") {
        Ok(Backend::Access)
    } else if str_equal(backend_name, "sqlite") {
        Ok(Backend::Sqlite)
    } else {
        let mut m = String::from_str("Invalid backend type: ");
        m.append(backend_name);
        Err(Error::MdbSqlError(m))
    }
}

/// The bind-buffer capacity shared by all non-OLE columns during export.
pub const EXPORT_BIND_SIZE: usize = 200000;

/// One column of a table read for export: its name, its declared type and
/// its declared maximum value length.
pub struct ExportColumn {
    pub name: String,
    pub col_type: ColType,
    pub max_len: usize,
}

/// A table definition read for export: destination name and columns.
pub struct TableDef {
    pub name: String,
    pub columns: Vec<ExportColumn>,
}

/// One source row, each cell as the text the engine exposes for it.
pub struct ExportRow {
    pub cells: Vec<String>,
}

impl View for ExportRow {
    type V = Seq<Seq<char>>;

    open spec fn view(&self) -> Seq<Seq<char>> {
        self.cells.deep_view()
    }
}

impl DeepView for ExportRow {
    type V = Seq<Seq<char>>;

    open spec fn deep_view(&self) -> Seq<Seq<char>> {
        self.cells.deep_view()
    }
}

/// Column types whose literals are quoted in the generated statements;
/// the numeric types pass through as-is.
pub open spec fn is_quoted_type(t: ColType) -> bool {
    t == ColType::Text || t == ColType::Memo || t == ColType::DateTime || t == ColType::Binary
        || t == ColType::Ole
}

/// The destination-dialect literal for one cell: quoted with embedded
/// quotes doubled for text-like columns, the bare text otherwise.
pub open spec fn literal_text(cell: Seq<char>, t: ColType) -> Seq<char> {
    if is_quoted_type(t) {
        seq!['"'] + escaped_text(cell, '"') + seq!['"']
    } else {
        cell
    }
}

/// `items` concatenated with `sep` between neighbours.
pub open spec fn joined(items: Seq<Seq<char>>, sep: Seq<char>) -> Seq<char>
    decreases items.len(),
{
    if items.len() == 0 {
        Seq::empty()
    } else if items.len() == 1 {
        items[0]
    } else {
        joined(items.drop_last(), sep) + sep + items.last()
    }
}

proof fn lemma_joined_snoc(items: Seq<Seq<char>>, x: Seq<char>, sep: Seq<char>)
    ensures
        joined(items.push(x), sep) == if items.len() == 0 {
            x
        } else {
            joined(items, sep) + sep + x
        },
{
    let p = items.push(x);
    if items.len() == 0 {
        assert(p.len() == 1);
        assert(joined(p, sep) == p[0]);
        assert(p[0] == x);
    } else {
        assert(p.len() >= 2);
        assert(joined(p, sep) == joined(p.drop_last(), sep) + sep + p.last());
        assert(p.drop_last() =~= items);
        assert(p.last() == x);
    }
}

/// The column names of `cols`, in order.
pub open spec fn column_names(cols: Seq<ExportColumn>) -> Seq<Seq<char>> {
    cols.map_values(|c: ExportColumn| c.name@)
}

/// The formatted literals of one row's cells against its columns.
pub open spec fn row_literals(cols: Seq<ExportColumn>, cells: Seq<Seq<char>>) -> Seq<Seq<char>> {
    Seq::new(cells.len(), |i: int| literal_text(cells[i], cols[i].col_type))
}

/// One `INSERT` statement for one source row: the quoted destination
/// table name, the column list, and the row's literals.
pub open spec fn insert_stmt_text(
    b: Backend,
    table_name: Seq<char>,
    cols: Seq<ExportColumn>,
    cells: Seq<Seq<char>>,
) -> Seq<char> {
    "INSERT INTO "@ + backend_quoted_name(b, table_name) + " ("@ + joined(
        column_names(cols),
        ", "@,
    ) + ") VALUES ("@ + joined(row_literals(cols, cells), ","@) + ");"@
}

/// The bulk DML text: the per-row statements concatenated in fetch order.
pub open spec fn dml_text(
    b: Backend,
    table_name: Seq<char>,
    cols: Seq<ExportColumn>,
    rows: Seq<Seq<Seq<char>>>,
) -> Seq<char>
    decreases rows.len(),
{
    if rows.len() == 0 {
        Seq::empty()
    } else {
        dml_text(b, table_name, cols, rows.drop_last()) + insert_stmt_text(
            b,
            table_name,
            cols,
            rows.last(),
        )
    }
}

fn quoted_literal_type(t: ColType) -> (r: bool)
    ensures
        r == is_quoted_type(t),
{
    match t {
        ColType::Text => true,
        ColType::Memo => true,
        ColType::DateTime => true,
        ColType::Binary => true,
        ColType::Ole => true,
        _ => false,
    }
}

/// Formats one cell as a destination-dialect literal.
pub fn literal_string(cell: &str, t: ColType) -> (r: String)
    ensures
        r@ == literal_text(cell@, t),
{
    if quoted_literal_type(t) {
        let mut buf = String::new();
        push_char(&mut buf, '"');
        append_escaped(&mut buf, cell, '"');
        push_char(&mut buf, '"');
        proof {
            assert(buf@ =~= seq!['"'] + escaped_text(cell@, '"') + seq!['"']);
        }
        buf
    } else {
        String::from_str(cell)
    }
}

/// Builds the `INSERT` statement for one source row.
pub fn insert_statement(backend: Backend, table: &TableDef, row: &ExportRow) -> (r: String)
    requires
        row@.len() == table.columns@.len(),
    ensures
        r@ == insert_stmt_text(backend, table.name@, table.columns@, row@),
{
    let mut buf = String::from_str("INSERT INTO ");
    let quoted = quote_schema_name(backend, table.name.as_str());
    buf.append(quoted.as_str());
    buf.append(" (");
    let ghost head = "INSERT INTO "@ + backend_quoted_name(backend, table.name@) + " ("@;
    proof {
        assert(buf@ =~= head);
    }
    let n = table.columns.len();
    let mut i: usize = 0;
    while i < n
        invariant
            0 <= i <= n,
            n == table.columns@.len(),
            head == "INSERT INTO "@ + backend_quoted_name(backend, table.name@) + " ("@,
            buf@ == head + joined(column_names(table.columns@).take(i as int), ", "@),
        decreases n - i,
    {
        if i > 0 {
            buf.append(", ");
        }
        buf.append(table.columns[i].name.as_str());
        proof {
            let names = column_names(table.columns@);
            assert(names[i as int] == table.columns@[i as int].name@);
            assert(names.take(i + 1) =~= names.take(i as int).push(names[i as int]));
            lemma_joined_snoc(names.take(i as int), names[i as int], ", "@);
            if i == 0 {
                assert(joined(names.take(1), ", "@) == names[0]);
                assert(buf@ =~= head + joined(names.take(1), ", "@));
            } else {
                assert(buf@ =~= head + joined(names.take(i + 1), ", "@));
            }
        }
        i = i + 1;
    }
    proof {
        assert(column_names(table.columns@).take(n as int) =~= column_names(table.columns@));
    }
    buf.append(") VALUES (");
    let ghost mid = head + joined(column_names(table.columns@), ", "@) + ") VALUES ("@;
    proof {
        assert(buf@ =~= mid);
    }
    let mut j: usize = 0;
    while j < n
        invariant
            0 <= j <= n,
            n == table.columns@.len(),
            n == row.cells@.len(),
            mid == "INSERT INTO "@ + backend_quoted_name(backend, table.name@) + " ("@ + joined(
                column_names(table.columns@),
                ", "@,
            ) + ") VALUES ("@,
            buf@ == mid + joined(row_literals(table.columns@, row@).take(j as int), ","@),
        decreases n - j,
    {
        if j > 0 {
            buf.append(",");
        }
        let lit = literal_string(row.cells[j].as_str(), table.columns[j].col_type);
        buf.append(lit.as_str());
        proof {
            let lits = row_literals(table.columns@, row@);
            assert(row@[j as int] == row.cells@[j as int]@);
            assert(lits[j as int] == literal_text(row.cells@[j as int]@, table.columns@[j as int].col_type));
            assert(lits.take(j + 1) =~= lits.take(j as int).push(lits[j as int]));
            lemma_joined_snoc(lits.take(j as int), lits[j as int], ","@);
            if j == 0 {
                assert(joined(lits.take(1), ","@) == lits[0]);
                assert(buf@ =~= mid + joined(lits.take(1), ","@));
            } else {
                assert(buf@ =~= mid + joined(lits.take(j + 1), ","@));
            }
        }
        j = j + 1;
    }
    proof {
        assert(row_literals(table.columns@, row@).take(n as int) =~= row_literals(
            table.columns@,
            row@,
        ));
    }
    buf.append(");");
    proof {
        assert(buf@ =~= insert_stmt_text(backend, table.name@, table.columns@, row@));
    }
    buf
}

/// Builds the bulk DML text for a table: one `INSERT` statement per source
/// row, concatenated in fetch order. A table with no rows produces an
/// empty body.
pub fn export(backend: Backend, table: &TableDef, rows: &Vec<ExportRow>) -> (r: String)
    requires
        forall|i: int| 0 <= i < rows@.len() ==> (#[trigger] rows@[i])@.len() == table.columns@.len(),
    ensures
        r@ == dml_text(backend, table.name@, table.columns@, rows.deep_view()),
        rows@.len() == 0 ==> r@ == Seq::<char>::empty(),
{
    let mut buf = String::new();
    let n = rows.len();
    let mut i: usize = 0;
    while i < n
        invariant
            0 <= i <= n,
            n == rows@.len(),
            forall|k: int|
                0 <= k < rows@.len() ==> (#[trigger] rows@[k])@.len() == table.columns@.len(),
            buf@ == dml_text(backend, table.name@, table.columns@, rows.deep_view().take(i as int)),
        decreases n - i,
    {
        let stmt = insert_statement(backend, table, &rows[i]);
        buf.append(stmt.as_str());
        proof {
            let dv = rows.deep_view();
            assert(dv[i as int] == rows@[i as int].deep_view());
            assert(rows@[i as int].deep_view() == rows@[i as int]@);
            assert(dv.take(i + 1) =~= dv.take(i as int).push(dv[i as int]));
            let t1 = dv.take(i + 1);
            assert(t1.len() == i + 1 > 0);
            assert(dml_text(backend, table.name@, table.columns@, t1) == dml_text(
                backend,
                table.name@,
                table.columns@,
                t1.drop_last(),
            ) + insert_stmt_text(backend, table.name@, table.columns@, t1.last()));
            assert(t1.drop_last() =~= dv.take(i as int));
            assert(t1.last() == dv[i as int]);
        }
        i = i + 1;
    }
    proof {
        assert(rows.deep_view().take(n as int) =~= rows.deep_view());
    }
    buf
}

/// How one column is bound for the row phase: a fixed buffer of the shared
/// capacity, or a direct per-row read for OLE columns whose size is
/// unbounded.
#[derive(Clone, Copy, Debug, PartialEq, Eq, Structural)]
pub enum ColumnBinding {
    Buffer { capacity: usize },
    DirectRead,
}

/// The binding the plan assigns to one column.
pub open spec fn binding_spec(c: ExportColumn, bind_size: usize) -> ColumnBinding {
    if c.col_type == ColType::Ole {
        ColumnBinding::DirectRead
    } else {
        ColumnBinding::Buffer { capacity: bind_size }
    }
}

/// The failure message for a column whose declared length exceeds the
/// shared bind capacity.
pub open spec fn bind_capacity_message(name: Seq<char>) -> Seq<char> {
    "column value capacity exceeds the bind size: "@ + name
}

/// Plans the bind phase: every non-OLE column gets a fixed buffer of
/// `bind_size`; OLE columns are read directly per row. A non-OLE column
/// whose declared maximum length exceeds `bind_size` is a declared
/// capacity violation and fails at the first such column, before any
/// buffer is bound.
pub fn plan_bindings(columns: &Vec<ExportColumn>, bind_size: usize) -> (r: Result<
    Vec<ColumnBinding>,
    Error,
>)
    ensures
        (r is Ok) <==> (forall|i: int|
            0 <= i < columns@.len() ==> ((#[trigger] columns@[i]).col_type == ColType::Ole
                || columns@[i].max_len <= bind_size)),
        r matches Ok(plan) ==> plan@.len() == columns@.len() && (forall|i: int|
            0 <= i < columns@.len() ==> #[trigger] plan@[i] == binding_spec(
                columns@[i],
                bind_size,
            )),
        r matches Err(e) ==> exists|i: int|
            {
                &&& 0 <= i < columns@.len()
                &&& (#[trigger] columns@[i]).col_type != ColType::Ole
                &&& columns@[i].max_len > bind_size
                &&& forall|j: int|
                    0 <= j < i ==> (columns@[j].col_type == ColType::Ole || columns@[j].max_len
                        <= bind_size)
                &&& e@ == ErrorView::MdbSqlError(bind_capacity_message(columns@[i].name@))
            },
{
    let n = columns.len();
    let mut plan: Vec<ColumnBinding> = Vec::new();
    let mut i: usize = 0;
    while i < n
        invariant
            0 <= i <= n,
            n == columns@.len(),
            plan@.len() == i,
            forall|j: int|
                0 <= j < i ==> #[trigger] plan@[j] == binding_spec(columns@[j], bind_size),
            forall|j: int|
                0 <= j < i ==> ((#[trigger] columns@[j]).col_type == ColType::Ole
                    || columns@[j].max_len <= bind_size),
        decreases n - i,
    {
        let c = &columns[i];
        if c.col_type == ColType::Ole {
            plan.push(ColumnBinding::DirectRead);
        } else if c.max_len <= bind_size {
            plan.push(ColumnBinding::Buffer { capacity: bind_size });
        } else {
            let mut m = String::from_str("column value capacity exceeds the bind size: ");
            m.append(c.name.as_str());
            return Err(Error::MdbSqlError(m));
        }
        i = i + 1;
    }
    Ok(plan)
}

/// One catalog entry: an object's name and whether the engine marks it
/// as an internal system table.
pub struct CatalogEntry {
    pub name: String,
    pub system: bool,
}

/// The names of the non-system entries, in catalog order.
pub open spec fn visible_names(entries: Seq<CatalogEntry>) -> Seq<Seq<char>>
    decreases entries.len(),
{
    if entries.len() == 0 {
        Seq::empty()
    } else {
        let rest = visible_names(entries.drop_last());
        if entries.last().system {
            rest
        } else {
            rest.push(entries.last().name@)
        }
    }
}

/// The user tables of a catalog, in catalog order, engine-internal system
/// tables filtered out.
pub fn table_names(entries: &Vec<CatalogEntry>) -> (r: Vec<String>)
    ensures
        r.deep_view() == visible_names(entries@),
{
    let mut out: Vec<String> = Vec::new();
    let n = entries.len();
    let mut i: usize = 0;
    while i < n
        invariant
            0 <= i <= n,
            n == entries@.len(),
            out.deep_view() == visible_names(entries@.take(i as int)),
        decreases n - i,
    {
        let ghost before = out.deep_view();
        if !entries[i].system {
            out.push(String::from_str(entries[i].name.as_str()));
            proof {
                assert(out.deep_view() =~= before.push(entries@[i as int].name@));
            }
        }
        proof {
            let t1 = entries@.take(i + 1);
            assert(t1.drop_last() =~= entries@.take(i as int));
            assert(t1.last() == entries@[i as int]);
        }
        i = i + 1;
    }
    proof {
        assert(entries@.take(n as int) =~= entries@);
    }
    out
}

/// Law: for a quoted column type, stripping the surrounding quotes from
/// the generated literal and collapsing the doubled quote characters
/// reproduces the cell text exactly.
pub proof fn lemma_literal_roundtrip(cell: Seq<char>, t: ColType)
    requires
        is_quoted_type(t),
    ensures
        literal_text(cell, t).len() >= 2,
        unescaped_text(
            literal_text(cell, t).subrange(1, literal_text(cell, t).len() - 1),
            '"',
        ) == cell,
{
    let lit = literal_text(cell, t);
    assert(lit == seq!['"'] + escaped_text(cell, '"') + seq!['"']);
    assert(lit.subrange(1, lit.len() - 1) =~= escaped_text(cell, '"'));
    lemma_escape_unescape_roundtrip(cell, '"');
}

/// Decides the outcome of looking a table up by name in the engine's
/// catalog: a missing table fails with the engine's wording before any
/// export buffer is planned or bound.
pub fn read_table_outcome(table_name: &str, found: bool) -> (r: Result<(), Error>)
    ensures
        found ==> r is Ok,
        !found ==> (r matches Err(e) && e@ == ErrorView::MdbSqlError(
            "Table "@ + table_name@ + " does not exist in this database."@,
        )),
{
    if found {
        Ok(())
    } else {
        let mut m = String::from_str("Table ");
        m.append(table_name);
        m.append(" does not exist in this database.");
        Err(Error::MdbSqlError(m))
    }
}

} // verus!
