//! The query/cursor protocol: one connection, one query at a time, and a
//! lazy, single-pass row stream bound to that query.
//!
//! The engine itself (file parsing, SQL execution, row fetching) is an
//! external collaborator driven by the embedding program. What stands here
//! is the protocol's decisions: what a query submission turns into, how a
//! cursor's state advances on each fetch outcome, and how cell values are
//! extracted from a fetched row. The embedding program performs each engine
//! call under the connection's lock and feeds the outcome back in.

use vstd::prelude::*;

use crate::codec::FromSql;
use crate::error::Error;
use crate::error::ErrorView;
use crate::text::trim_cell;
use crate::text::trimmed;

verus! {

/// One bound value of the current row, copied out of the engine's
/// transient buffer as text.
pub struct SqlValue {
    text: String,
}

impl View for SqlValue {
    type V = Seq<char>;

    closed spec fn view(&self) -> Seq<char> {
        self.text@
    }
}

impl DeepView for SqlValue {
    type V = Seq<char>;

    open spec fn deep_view(&self) -> Seq<char> {
        self.view()
    }
}

impl SqlValue {
    /// Wraps one cell's text, already copied out of engine-owned memory.
    pub fn new(text: String) -> (r: SqlValue)
        ensures
            r@ == text@,
    {
        SqlValue { text }
    }

    /// The cell's raw text.
    pub fn get(&self) -> (r: Result<&str, Error>)
        ensures
            r matches Ok(t) && t@ == self@,
    {
        Ok(self.text.as_str())
    }
}

/// One result column: its name and the engine's declared bind type,
/// copied out eagerly when the cursor is created.
pub struct SqlColumn {
    name: String,
    bind_type: i32,
}

impl SqlColumn {
    pub closed spec fn name_spec(&self) -> Seq<char> {
        self.name@
    }

    pub closed spec fn bind_type_spec(&self) -> i32 {
        self.bind_type
    }

    pub fn new(name: String, bind_type: i32) -> (r: SqlColumn)
        ensures
            r.name_spec() == name@,
            r.bind_type_spec() == bind_type,
    {
        SqlColumn { name, bind_type }
    }

    /// The column's name.
    pub fn name(&self) -> (r: String)
        ensures
            r@ == self.name_spec(),
    {
        String::from_str(self.name.as_str())
    }

    /// The engine's declared bind type for this column.
    pub fn bind_type(&self) -> (r: i32)
        ensures
            r == self.bind_type_spec(),
    {
        self.bind_type
    }
}

/// One fetched record, its values copied out of engine-managed buffers
/// before the next fetch.
pub struct Row {
    values: Vec<SqlValue>,
}

impl View for Row {
    type V = Seq<Seq<char>>;

    closed spec fn view(&self) -> Seq<Seq<char>> {
        self.values.deep_view()
    }
}

impl Row {
    pub fn new(values: Vec<SqlValue>) -> (r: Row)
        ensures
            r@ == values.deep_view(),
    {
        Row { values }
    }

    /// Gets the value at `idx`, trimmed of surrounding whitespace and
    /// decoded as `T`. Fails with `InvalidRowIndex` exactly when `idx` is
    /// out of range, and with `FromSqlError` exactly when the trimmed text
    /// does not decode as `T`.
    pub fn get<T: FromSql>(&self, idx: usize) -> (r: Result<T, Error>)
        ensures
            idx < self@.len() ==> {
                let cell = trimmed(self@[idx as int]);
                &&& (r is Ok) <==> T::sql_decodes(cell)
                &&& (r matches Ok(v) ==> v.deep_view() == T::sql_decoded(cell))
                &&& (r matches Err(e) ==> e@ is FromSqlError)
            },
            idx >= self@.len() ==> (r matches Err(e) && e@ == ErrorView::InvalidRowIndex(
                idx as int,
            )),
    {
        if idx < self.values.len() {
            let cell = match self.values[idx].get() {
                Ok(t) => t,
                Err(e) => {
                    return Err(e);
                },
            };
            let t = trim_cell(cell);
            T::column_result(t)
        } else {
            Err(Error::InvalidRowIndex(idx))
        }
    }
}

/// The mathematical state of a cursor: the column snapshot taken at
/// creation, whether the stream is exhausted, and how many rows it has
/// yielded.
pub struct RowsView {
    pub columns: Seq<SqlColumn>,
    pub done: bool,
    pub yielded: nat,
}

/// How a cursor's state advances on one fetch outcome: a fetched row is
/// yielded; exhaustion ends the stream. The column snapshot never changes.
pub open spec fn rows_step(v: RowsView, fetch: Option<Seq<SqlValue>>) -> RowsView {
    match fetch {
        Some(_) => RowsView { columns: v.columns, done: v.done, yielded: v.yielded + 1 },
        None => RowsView { columns: v.columns, done: true, yielded: v.yielded },
    }
}

/// The cursor state after a sequence of fetch outcomes.
pub open spec fn rows_run(v: RowsView, fetches: Seq<Option<Seq<SqlValue>>>) -> RowsView
    decreases fetches.len(),
{
    if fetches.len() == 0 {
        v
    } else {
        rows_run(rows_step(v, fetches[0]), fetches.skip(1))
    }
}

pub open spec fn fetch_view(f: Option<Vec<SqlValue>>) -> Option<Seq<SqlValue>> {
    match f {
        Some(v) => Some(v@),
        None => None,
    }
}

/// A handle for the rows of one query's result stream. It advances on the
/// outcome of each engine row fetch and counts the rows it has yielded.
pub struct Rows {
    columns: Vec<SqlColumn>,
    done: bool,
    yielded: Ghost<nat>,
}

impl View for Rows {
    type V = RowsView;

    closed spec fn view(&self) -> RowsView {
        RowsView { columns: self.columns@, done: self.done, yielded: self.yielded@ }
    }
}

impl Rows {
    /// The column metadata captured when the query was prepared. It is a
    /// snapshot: no later fetch changes it.
    pub fn columns(&self) -> (r: &Vec<SqlColumn>)
        ensures
            r@ == self@.columns,
    {
        &self.columns
    }

    /// Advances the stream by one engine fetch outcome: `Some(values)` if
    /// the fetch produced a row (its bound values copied out), `None` if
    /// the engine reported exhaustion.
    pub fn next(&mut self, fetch: Option<Vec<SqlValue>>) -> (r: Option<Row>)
        requires
            !old(self)@.done,
        ensures
            final(self)@ == rows_step(old(self)@, fetch_view(fetch)),
            fetch matches Some(values) ==> r matches Some(row) && row@ == values.deep_view(),
            fetch is None ==> r is None,
    {
        match fetch {
            Some(values) => {
                proof {
                    self.yielded@ = self.yielded@ + 1;
                }
                Some(Row::new(values))
            },
            None => {
                self.done = true;
                None
            },
        }
    }
}

/// The state a freshly prepared cursor starts in.
pub open spec fn prepare_ok_view(columns: Seq<SqlColumn>) -> RowsView {
    RowsView { columns, done: false, yielded: 0 }
}

/// What a query submission turns into, given the engine's post-execution
/// error slot: a live cursor over the captured column snapshot when the
/// slot is empty, and `MdbSqlError` with the slot's message otherwise.
pub open spec fn prepare_spec(error_msg: Option<Seq<char>>, columns: Seq<SqlColumn>) -> Result<
    RowsView,
    ErrorView,
> {
    match error_msg {
        Some(m) => Err(ErrorView::MdbSqlError(m)),
        None => Ok(prepare_ok_view(columns)),
    }
}

/// Decides the outcome of a prepared query from the engine's error slot
/// (read immediately after submission) and the captured column metadata.
pub fn prepare_outcome(error_msg: Option<String>, columns: Vec<SqlColumn>) -> (r: Result<
    Rows,
    Error,
>)
    ensures
        (match r {
            Ok(rows) => Ok::<RowsView, ErrorView>(rows@),
            Err(e) => Err(e@),
        }) == prepare_spec(
            match error_msg {
                Some(m) => Some(m@),
                None => None,
            },
            columns@,
        ),
{
    match error_msg {
        Some(m) => Err(Error::MdbSqlError(m)),
        None => Ok(Rows { columns, done: false, yielded: Ghost(0) }),
    }
}

/// Checks that a string can cross the engine boundary as C text: it fails
/// with `NulError` at the first embedded nul, if any.
pub fn check_nul_free(s: &str) -> (r: Result<(), Error>)
    ensures
        (r is Ok) <==> (forall|i: int| 0 <= i < s@.len() ==> s@[i] != '\0'),
        r matches Err(e) ==> exists|i: int|
            {
                &&& 0 <= i < s@.len()
                &&& #[trigger] s@[i] == '\0'
                &&& forall|j: int| 0 <= j < i ==> s@[j] != '\0'
                &&& e@ == ErrorView::NulError(i)
            },
{
    let len = s.unicode_len();
    let mut i: usize = 0;
    while i < len
        invariant
            0 <= i <= len,
            len == s@.len(),
            forall|j: int| 0 <= j < i ==> s@[j] != '\0',
        decreases len - i,
    {
        if s.get_char(i) == '\0' {
            return Err(Error::NulError(i));
        }
        i = i + 1;
    }
    Ok(())
}

/// Decides the outcome of opening a database file: `InvalidPath` when the
/// path does not name a regular file, `InvalidMdbFile` when the engine
/// rejected the file's contents, success otherwise.
pub fn open_outcome(path: &str, is_regular_file: bool, engine_accepted: bool) -> (r: Result<
    (),
    Error,
>)
    ensures
        !is_regular_file ==> (r matches Err(e) && e@ == ErrorView::InvalidPath(path@)),
        is_regular_file && !engine_accepted ==> (r matches Err(e) && e@
            == ErrorView::InvalidMdbFile(path@)),
        is_regular_file && engine_accepted ==> r is Ok,
{
    if !is_regular_file {
        Err(Error::InvalidPath(String::from_str(path)))
    } else if !engine_accepted {
        Err(Error::InvalidMdbFile(String::from_str(path)))
    } else {
        Ok(())
    }
}

/// Law: against a result stream of `n` rows — `n` fetches that produce a
/// row followed by one that reports exhaustion — a cursor yields exactly
/// `n` rows, in the engine's fetch order, and ends exhausted; its column
/// metadata stays the snapshot taken at creation, independent of how many
/// rows were consumed.
pub proof fn lemma_cursor_yields_row_per_fetch(
    v: RowsView,
    fetches: Seq<Option<Seq<SqlValue>>>,
    n: nat,
)
    requires
        fetches.len() == n + 1,
        forall|i: int| 0 <= i < n ==> #[trigger] fetches[i] is Some,
        fetches[n as int] is None,
    ensures
        rows_run(v, fetches).yielded == v.yielded + n,
        rows_run(v, fetches).done,
        rows_run(v, fetches).columns == v.columns,
    decreases n,
{
    if n == 0 {
        let w = rows_step(v, fetches[0]);
        assert(fetches.skip(1).len() == 0);
        assert(rows_run(w, fetches.skip(1)) == w);
        assert(rows_run(v, fetches) == w);
    } else {
        let w = rows_step(v, fetches[0]);
        let rest = fetches.skip(1);
        assert(forall|i: int| 0 <= i < n - 1 ==> #[trigger] rest[i] is Some);
        assert(rest[n - 1] is None);
        lemma_cursor_yields_row_per_fetch(w, rest, (n - 1) as nat);
    }
}

/// Law: a prepare whose engine error slot is non-empty fails with
/// `MdbSqlError` carrying that message, and leaves nothing behind: a
/// following prepare with an empty error slot succeeds with exactly its
/// own query's column snapshot.
pub proof fn lemma_failed_prepare_leaves_connection_usable(
    msg: Seq<char>,
    cols_failed: Seq<SqlColumn>,
    cols_retry: Seq<SqlColumn>,
)
    ensures
        prepare_spec(Some(msg), cols_failed) == Err::<RowsView, ErrorView>(
            ErrorView::MdbSqlError(msg),
        ),
        prepare_spec(None, cols_retry) == Ok::<RowsView, ErrorView>(prepare_ok_view(cols_retry)),
{
}

} // verus!
