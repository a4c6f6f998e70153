//! Running a statement: what is asked of the driver and in which order, and how
//! the rows that it fetches become JSON.
//!
//! The driver itself blocks on the network, so it is called from outside; here
//! a [`StatementRun`] says what to call next and takes in what came back.

use vstd::prelude::*;
use vstd::string::*;

use base64::Engine;

use crate::codec::{lemma_object_writable, representable, writable};
use crate::json::{
    distinct_keys, entry_value, entry_views, lemma_entries_of_with_entry, lemma_with_entry,
    set_entry, views, with_entry, Json, JsonView,
};
use crate::numeral::{is_same_number, same_number};
use crate::types::OracleOp;

verus! {

// -------------------------------------------------------------------- manager

/// The login of a binding's connection pool.
pub struct OracleManager {
    username: String,
    password: String,
    dsn: String,
}

/// The mathematical value of an [`OracleManager`].
pub struct LoginView {
    pub username: Seq<char>,
    pub password: Seq<char>,
    pub dsn: Seq<char>,
}

impl OracleManager {
    pub closed spec fn view(&self) -> LoginView {
        LoginView { username: self.username@, password: self.password@, dsn: self.dsn@ }
    }

    #[must_use]
    pub fn new(username: String, password: String, dsn: String) -> (r: Self)
        ensures
            r@ == (LoginView { username: username@, password: password@, dsn: dsn@ }),
    {
        OracleManager { username, password, dsn }
    }

    /// The database user.
    pub fn username(&self) -> (r: &str)
        ensures
            r@ == self@.username,
    {
        self.username.as_str()
    }

    /// The login password.
    pub fn password(&self) -> (r: &str)
        ensures
            r@ == self@.password,
    {
        self.password.as_str()
    }

    /// The data source name.
    pub fn dsn(&self) -> (r: &str)
        ensures
            r@ == self@.dsn,
    {
        self.dsn.as_str()
    }
}

impl Clone for OracleManager {
    fn clone(&self) -> (r: Self)
        ensures
            r == *self,
    {
        OracleManager {
            username: self.username.clone(),
            password: self.password.clone(),
            dsn: self.dsn.clone(),
        }
    }
}

/// An error text: what failed, then the reason.
pub fn failure(what: &str, reason: &str) -> (r: String)
    ensures
        r@ == what@ + reason@,
{
    let mut text = what.to_owned();
    text.append(reason);
    text
}

// --------------------------------------------------------------------- base64

/// The base64 alphabet.
pub open spec fn base64_alphabet() -> Seq<char> {
    "ABCDEFGHIJKLMNOPQRSTUVWXYZabcdefghijklmnopqrstuvwxyz0123456789+/"@
}

/// Byte `i`, or zero past the end.
pub open spec fn byte_at(bytes: Seq<u8>, i: int) -> int {
    if 0 <= i < bytes.len() {
        bytes[i] as int
    } else {
        0
    }
}

/// The `k`-th group of six bits: three bytes hold four of them, the high bits
/// first.
pub open spec fn sextet(bytes: Seq<u8>, k: int) -> int {
    let first = 3 * (k / 4);
    let group = 65536 * byte_at(bytes, first) + 256 * byte_at(bytes, first + 1) + byte_at(
        bytes,
        first + 2,
    );
    let unit = if k % 4 == 0 {
        262144int
    } else if k % 4 == 1 {
        4096
    } else if k % 4 == 2 {
        64
    } else {
        1
    };
    (group / unit) % 64
}

/// The base64 text of bytes: a character for each six bits, padded with `=` to
/// a multiple of four.
pub open spec fn base64_text(bytes: Seq<u8>) -> Seq<char> {
    Seq::new(
        4 * ((bytes.len() + 2) / 3),
        |k: int|
            if 6 * k < 8 * bytes.len() {
                base64_alphabet()[sextet(bytes, k)]
            } else {
                '='
            },
    )
}

/// `base64::Engine::encode` of the `STANDARD` engine. Claims that the text is
/// the padded encoding in the standard alphabet.
#[verifier::external_body]
fn encode_base64(bytes: &[u8]) -> (r: String)
    ensures
        r@ == base64_text(bytes@),
{
    base64::engine::general_purpose::STANDARD.encode(bytes)
}

// ---------------------------------------------------------------------- cells

/// The type of a result column.
#[derive(Debug, Clone, Copy, PartialEq, Eq, Structural)]
pub enum ColumnType {
    Number,
    Float,
    BinaryFloat,
    BinaryDouble,
    Int64,
    UInt64,
    Varchar2,
    NVarchar2,
    Char,
    NChar,
    Long,
    Clob,
    NClob,
    Rowid,
    Date,
    Timestamp,
    TimestampTz,
    TimestampLtz,
    IntervalDs,
    IntervalYm,
    Raw,
    LongRaw,
    Blob,
    Bfile,
    Boolean,
    /// JSON, XML and anything else.
    Other,
}

/// How a column's cells are projected to JSON.
#[derive(Debug, Clone, Copy, PartialEq, Eq, Structural)]
pub enum Projection {
    /// A decimal number, of which no digit may be lost.
    Number,
    /// A binary floating-point number.
    Binary,
    Text,
    Bytes,
    Flag,
}

impl ColumnType {
    /// How cells of this type are projected.
    pub open spec fn projected_as(self) -> Projection {
        match self {
            ColumnType::Number | ColumnType::Float | ColumnType::Int64 | ColumnType::UInt64 => {
                Projection::Number
            },
            ColumnType::BinaryFloat | ColumnType::BinaryDouble => Projection::Binary,
            ColumnType::Raw | ColumnType::LongRaw | ColumnType::Blob | ColumnType::Bfile => {
                Projection::Bytes
            },
            ColumnType::Boolean => Projection::Flag,
            _ => Projection::Text,
        }
    }

    /// How cells of this type are projected.
    pub fn projection(self) -> (r: Projection)
        ensures
            r == self.projected_as(),
    {
        match self {
            ColumnType::Number | ColumnType::Float | ColumnType::Int64 | ColumnType::UInt64 => {
                Projection::Number
            },
            ColumnType::BinaryFloat | ColumnType::BinaryDouble => Projection::Binary,
            ColumnType::Raw | ColumnType::LongRaw | ColumnType::Blob | ColumnType::Bfile => {
                Projection::Bytes
            },
            ColumnType::Boolean => Projection::Flag,
            _ => Projection::Text,
        }
    }
}

/// What reading a cell as some type gave.
#[derive(Debug, PartialEq)]
pub enum Read<T> {
    /// The cell does not convert to the type.
    Unreadable,
    /// The cell is NULL.
    Null,
    Value(T),
}

/// A fetched cell, read in each of the ways that a projection may need.
#[derive(Debug, PartialEq)]
pub struct Cell {
    /// As a 64-bit integer.
    pub int: Read<i64>,
    /// As a finite floating-point number, in its JSON form.
    pub number: Read<String>,
    /// As text.
    pub text: Read<String>,
    /// As bytes.
    pub bytes: Read<Vec<u8>>,
    /// As a truth value.
    pub flag: Read<bool>,
}

/// The mathematical value of a [`Cell`].
pub struct CellView {
    pub int: Read<int>,
    pub number: Read<Seq<char>>,
    pub text: Read<Seq<char>>,
    pub bytes: Read<Seq<u8>>,
    pub flag: Read<bool>,
}

/// The value of a text that was read.
pub open spec fn text_read(r: Read<String>) -> Read<Seq<char>> {
    match r {
        Read::Unreadable => Read::Unreadable,
        Read::Null => Read::Null,
        Read::Value(t) => Read::Value(t@),
    }
}

impl Cell {
    pub open spec fn view(&self) -> CellView {
        CellView {
            int: match self.int {
                Read::Unreadable => Read::Unreadable,
                Read::Null => Read::Null,
                Read::Value(i) => Read::Value(i as int),
            },
            number: text_read(self.number),
            text: text_read(self.text),
            bytes: match self.bytes {
                Read::Unreadable => Read::Unreadable,
                Read::Null => Read::Null,
                Read::Value(b) => Read::Value(b@),
            },
            flag: self.flag,
        }
    }
}

/// The values of a list of cells.
pub open spec fn cell_views(cells: Seq<Cell>) -> Seq<CellView> {
    Seq::new(cells.len(), |i: int| cells[i]@)
}

/// A cell as text; what does not convert counts as NULL.
pub open spec fn text_json(cell: CellView) -> JsonView {
    match cell.text {
        Read::Value(t) => JsonView::Text(t),
        _ => JsonView::Null,
    }
}

/// A cell as a binary floating-point number: a 64-bit integer, else the number,
/// else text.
pub open spec fn binary_json(cell: CellView) -> JsonView {
    match cell.int {
        Read::Value(i) => JsonView::Integer(i),
        Read::Null => JsonView::Null,
        Read::Unreadable => match cell.number {
            Read::Value(f) => JsonView::Decimal(f),
            _ => text_json(cell),
        },
    }
}

/// A cell as a decimal number: a 64-bit integer, else a floating-point number
/// where it is the same number as the text, else the text, which has every
/// digit.
pub open spec fn number_json(cell: CellView) -> JsonView {
    match (cell.int, cell.number, cell.text) {
        (Read::Unreadable, Read::Value(f), Read::Value(t)) if !same_number(f, t) => {
            JsonView::Text(t)
        },
        _ => binary_json(cell),
    }
}

/// A cell as bytes in base64.
pub open spec fn bytes_json(cell: CellView) -> JsonView {
    match cell.bytes {
        Read::Value(b) => JsonView::Text(base64_text(b)),
        Read::Null => JsonView::Null,
        Read::Unreadable => text_json(cell),
    }
}

/// A cell as a truth value.
pub open spec fn flag_json(cell: CellView) -> JsonView {
    match cell.flag {
        Read::Value(b) => JsonView::Bool(b),
        Read::Null => JsonView::Null,
        Read::Unreadable => text_json(cell),
    }
}

/// A cell as JSON, by the type of its column.
pub open spec fn cell_json(kind: ColumnType, cell: CellView) -> JsonView {
    match kind.projected_as() {
        Projection::Number => number_json(cell),
        Projection::Binary => binary_json(cell),
        Projection::Text => text_json(cell),
        Projection::Bytes => bytes_json(cell),
        Projection::Flag => flag_json(cell),
    }
}

fn string_to_json(cell: &Cell) -> (r: Json)
    ensures
        r@ == text_json(cell@),
{
    match &cell.text {
        Read::Value(t) => Json::Text(t.clone()),
        _ => Json::Null,
    }
}

fn binary_to_json(cell: &Cell) -> (r: Json)
    ensures
        r@ == binary_json(cell@),
{
    match &cell.int {
        Read::Value(i) => Json::Integer(*i as i128),
        Read::Null => Json::Null,
        Read::Unreadable => match &cell.number {
            Read::Value(f) => Json::Decimal(f.clone()),
            _ => string_to_json(cell),
        },
    }
}

fn number_to_json(cell: &Cell) -> (r: Json)
    ensures
        r@ == number_json(cell@),
{
    if let (Read::Unreadable, Read::Value(f), Read::Value(t)) = (
        &cell.int,
        &cell.number,
        &cell.text,
    ) {
        if !is_same_number(f.as_str(), t.as_str()) {
            return Json::Text(t.clone());
        }
    }
    binary_to_json(cell)
}

fn bytes_to_json(cell: &Cell) -> (r: Json)
    ensures
        r@ == bytes_json(cell@),
{
    match &cell.bytes {
        Read::Value(b) => Json::Text(encode_base64(b.as_slice())),
        Read::Null => Json::Null,
        Read::Unreadable => string_to_json(cell),
    }
}

/// Project a cell to JSON by the type of its column. A cell that does not
/// convert falls back to text, then to null.
pub fn column_to_json(cell: &Cell, kind: ColumnType) -> (r: Json)
    ensures
        r@ == cell_json(kind, cell@),
{
    match kind.projection() {
        Projection::Number => number_to_json(cell),
        Projection::Binary => binary_to_json(cell),
        Projection::Text => string_to_json(cell),
        Projection::Bytes => bytes_to_json(cell),
        Projection::Flag => match cell.flag {
            Read::Value(b) => Json::Bool(b),
            Read::Null => Json::Null,
            Read::Unreadable => string_to_json(cell),
        },
    }
}

/// A column of a result: its name as the server reports it, and its type.
#[derive(Debug, PartialEq)]
pub struct Column {
    pub name: String,
    pub kind: ColumnType,
}

/// The mathematical value of a [`Column`].
pub struct ColumnView {
    pub name: Seq<char>,
    pub kind: ColumnType,
}

impl Column {
    pub open spec fn view(&self) -> ColumnView {
        ColumnView { name: self.name@, kind: self.kind }
    }
}

/// The values of a list of columns.
pub open spec fn column_views(columns: Seq<Column>) -> Seq<ColumnView> {
    Seq::new(columns.len(), |i: int| columns[i]@)
}

/// The entries of a row. Of columns with the same name the last one wins.
pub open spec fn row_entries(columns: Seq<ColumnView>, cells: Seq<CellView>) -> Seq<
    (Seq<char>, JsonView),
>
    decreases columns.len(),
{
    if columns.len() == 0 {
        Seq::empty()
    } else {
        let k = columns.len() - 1;
        with_entry(
            row_entries(columns.drop_last(), cells),
            columns[k].name,
            cell_json(columns[k].kind, cells[k]),
        )
    }
}

/// Project a row to a JSON object, one entry for each column name.
pub fn row_to_json(cells: &Vec<Cell>, columns: &Vec<Column>) -> (r: Json)
    requires
        cells@.len() == columns@.len(),
    ensures
        r@ == JsonView::Object(row_entries(column_views(columns@), cell_views(cells@))),
{
    broadcast use Json::lemma_view;

    let ghost cols = column_views(columns@);
    let ghost vals = cell_views(cells@);
    let mut entries: Vec<(String, Json)> = Vec::new();
    let mut i: usize = 0;
    assert(entry_views(entries@) =~= Seq::<(Seq<char>, JsonView)>::empty());
    while i < columns.len()
        invariant
            cells@.len() == columns@.len(),
            cols == column_views(columns@),
            vals == cell_views(cells@),
            i <= columns.len(),
            entry_views(entries@) == row_entries(cols.take(i as int), vals),
        decreases columns.len() - i,
    {
        assert(cols.take(i + 1).drop_last() =~= cols.take(i as int));
        let value = column_to_json(&cells[i], columns[i].kind);
        set_entry(&mut entries, columns[i].name.clone(), value);
        i += 1;
    }
    assert(cols.take(i as int) =~= cols);
    Json::Object(entries)
}

// ------------------------------------------------------------------- statement

/// Result of a completed statement: rows of a query, or the count of a
/// mutation.
#[derive(Debug, PartialEq)]
pub struct QueryOutcome {
    pub rows: Option<Vec<Json>>,
    pub rows_affected: Option<u64>,
}

/// The mathematical value of a [`QueryOutcome`].
pub struct OutcomeView {
    pub rows: Option<Seq<JsonView>>,
    pub rows_affected: Option<nat>,
}

impl QueryOutcome {
    pub open spec fn view(&self) -> OutcomeView {
        OutcomeView {
            rows: match self.rows {
                Some(rows) => Some(views(rows@)),
                None => None,
            },
            rows_affected: match self.rows_affected {
                Some(n) => Some(n as nat),
                None => None,
            },
        }
    }
}

impl OutcomeView {
    /// The rows, none where the statement was no query.
    pub open spec fn row_list(self) -> Seq<JsonView> {
        match self.rows {
            Some(rows) => rows,
            None => Seq::empty(),
        }
    }
}

impl QueryOutcome {
    /// The rows, none where the statement was no query.
    pub fn into_rows(self) -> (r: Vec<Json>)
        ensures
            views(r@) == self@.row_list(),
    {
        match self.rows {
            Some(rows) => rows,
            None => {
                let none: Vec<Json> = Vec::new();
                assert(views(none@) =~= Seq::<JsonView>::empty());
                none
            },
        }
    }
}

/// The value of a statement's result.
pub open spec fn result_view(r: Result<QueryOutcome, String>) -> Result<OutcomeView, Seq<char>> {
    match r {
        Ok(outcome) => Ok(outcome@),
        Err(e) => Err(e@),
    }
}

/// Where a run stands: what has been asked of the driver last.
#[derive(Debug, Clone, Copy, PartialEq, Eq, Structural)]
pub enum Phase {
    /// The call timeout is being set.
    Starting,
    /// The query is being opened.
    Opening,
    /// A row is being fetched.
    Fetching,
    /// The mutation is being executed.
    Executing,
    /// The count of affected rows is being read.
    Counting,
    /// The mutation is being committed.
    Committing,
    /// The run is over.
    Finished,
}

/// What to ask of the driver.
#[derive(Debug, Clone, Copy, PartialEq, Eq, Structural)]
pub enum DriverCall {
    SetCallTimeout,
    Query,
    FetchRow,
    Execute,
    RowCount,
    Commit,
}

/// What the driver answered.
#[derive(Debug, PartialEq)]
pub enum DriverEvent {
    /// The call failed, for the reason given.
    Failed(String),
    TimeoutSet,
    /// The query is open and has these columns.
    Opened(Vec<Column>),
    /// The next row.
    Row(Vec<Cell>),
    NoMoreRows,
    Executed,
    /// So many rows are affected.
    Counted(u64),
    Committed,
}

/// The mathematical value of a [`DriverEvent`].
pub enum EventView {
    Failed(Seq<char>),
    TimeoutSet,
    Opened(Seq<ColumnView>),
    Row(Seq<CellView>),
    NoMoreRows,
    Executed,
    Counted(nat),
    Committed,
}

impl DriverEvent {
    pub open spec fn view(&self) -> EventView {
        match self {
            DriverEvent::Failed(e) => EventView::Failed(e@),
            DriverEvent::TimeoutSet => EventView::TimeoutSet,
            DriverEvent::Opened(columns) => EventView::Opened(column_views(columns@)),
            DriverEvent::Row(cells) => EventView::Row(cell_views(cells@)),
            DriverEvent::NoMoreRows => EventView::NoMoreRows,
            DriverEvent::Executed => EventView::Executed,
            DriverEvent::Counted(n) => EventView::Counted(*n as nat),
            DriverEvent::Committed => EventView::Committed,
        }
    }
}

/// What a run does next: call the driver, or end with a result.
#[derive(Debug, PartialEq)]
pub enum Progress {
    Call(DriverCall),
    Done(Result<QueryOutcome, String>),
}

/// The mathematical value of a [`Progress`].
pub enum ProgressView {
    Call(DriverCall),
    Done(Result<OutcomeView, Seq<char>>),
}

impl Progress {
    pub open spec fn view(&self) -> ProgressView {
        match self {
            Progress::Call(c) => ProgressView::Call(*c),
            Progress::Done(r) => ProgressView::Done(result_view(*r)),
        }
    }
}

/// One run of a statement.
#[derive(Debug)]
pub struct StatementRun {
    op: OracleOp,
    size_limit: usize,
    phase: Phase,
    columns: Vec<Column>,
    rows: Vec<Json>,
    affected: u64,
}

/// The mathematical value of a [`StatementRun`].
pub struct RunView {
    pub op: OracleOp,
    pub size_limit: nat,
    pub phase: Phase,
    pub columns: Seq<ColumnView>,
    pub rows: Seq<JsonView>,
    pub affected: nat,
}

impl RunView {
    /// The run before anything came back.
    pub open spec fn start(op: OracleOp, size_limit: nat) -> RunView {
        RunView {
            op,
            size_limit,
            phase: Phase::Starting,
            columns: Seq::empty(),
            rows: Seq::empty(),
            affected: 0,
        }
    }

    /// A query never holds more rows than its limit, and fetches only below it;
    /// the other phases belong to mutations.
    pub open spec fn wf(self) -> bool {
        &&& self.rows.len() <= self.size_limit
        &&& match self.phase {
            Phase::Starting => self.rows.len() == 0,
            Phase::Finished => true,
            Phase::Opening => self.op == OracleOp::Query && self.rows.len() == 0,
            Phase::Fetching => self.op == OracleOp::Query && self.rows.len() < self.size_limit,
            Phase::Executing | Phase::Counting | Phase::Committing => self.op
                == OracleOp::Execute,
        }
    }

    /// The driver may answer so in this phase.
    pub open spec fn awaits(self, event: EventView) -> bool {
        match event {
            EventView::Failed(_) => self.phase != Phase::Finished,
            EventView::TimeoutSet => self.phase == Phase::Starting,
            EventView::Opened(_) => self.phase == Phase::Opening,
            EventView::Row(cells) => self.phase == Phase::Fetching && cells.len()
                == self.columns.len(),
            EventView::NoMoreRows => self.phase == Phase::Fetching,
            EventView::Executed => self.phase == Phase::Executing,
            EventView::Counted(_) => self.phase == Phase::Counting,
            EventView::Committed => self.phase == Phase::Committing,
        }
    }

    /// The run moved on to a phase, asking for a call.
    pub open spec fn calling(self, phase: Phase, call: DriverCall) -> (RunView, ProgressView) {
        ((RunView { phase, ..self }), ProgressView::Call(call))
    }

    /// The run ended.
    pub open spec fn ending(self, result: Result<OutcomeView, Seq<char>>) -> (
        RunView,
        ProgressView,
    ) {
        ((RunView { phase: Phase::Finished, ..self }), ProgressView::Done(result))
    }

    /// The run ended with the rows so far, which it hands out.
    pub open spec fn ending_with_rows(self) -> (RunView, ProgressView) {
        (
            (RunView { phase: Phase::Finished, rows: Seq::empty(), ..self }),
            ProgressView::Done(Ok(OutcomeView { rows: Some(self.rows), rows_affected: None })),
        )
    }

    /// Fetch on while the limit is not reached, else end with the rows.
    pub open spec fn fetching_on(self) -> (RunView, ProgressView) {
        if self.rows.len() < self.size_limit {
            self.calling(Phase::Fetching, DriverCall::FetchRow)
        } else {
            self.ending_with_rows()
        }
    }

    /// How the run goes on from an answer of the driver.
    pub open spec fn stepped(self, event: EventView) -> (RunView, ProgressView) {
        match event {
            EventView::Failed(e) => self.ending(Err(failed_call(self.phase) + e)),
            EventView::TimeoutSet => match self.op {
                OracleOp::Query => self.calling(Phase::Opening, DriverCall::Query),
                OracleOp::Execute => self.calling(Phase::Executing, DriverCall::Execute),
            },
            EventView::Opened(columns) => (RunView { columns, ..self }).fetching_on(),
            EventView::Row(cells) => (RunView {
                rows: self.rows.push(JsonView::Object(row_entries(self.columns, cells))),
                ..self
            }).fetching_on(),
            EventView::NoMoreRows => self.ending_with_rows(),
            EventView::Executed => self.calling(Phase::Counting, DriverCall::RowCount),
            EventView::Counted(n) => (RunView { affected: n, ..self }).calling(
                Phase::Committing,
                DriverCall::Commit,
            ),
            EventView::Committed => self.ending(
                Ok(OutcomeView { rows: None, rows_affected: Some(self.affected) }),
            ),
        }
    }
}

/// How the error text of a failed call begins.
pub open spec fn failed_call(phase: Phase) -> Seq<char> {
    match phase {
        Phase::Starting => "Oracle set_call_timeout failed: "@,
        Phase::Opening => "Oracle query failed: "@,
        Phase::Fetching => "Oracle row read failed: "@,
        Phase::Executing => "Oracle execute failed: "@,
        Phase::Counting => "Oracle row_count failed: "@,
        Phase::Committing => "Oracle commit failed: "@,
        Phase::Finished => ""@,
    }
}

fn failed_call_text(phase: Phase) -> (r: &'static str)
    ensures
        r@ == failed_call(phase),
{
    match phase {
        Phase::Starting => "Oracle set_call_timeout failed: ",
        Phase::Opening => "Oracle query failed: ",
        Phase::Fetching => "Oracle row read failed: ",
        Phase::Executing => "Oracle execute failed: ",
        Phase::Counting => "Oracle row_count failed: ",
        Phase::Committing => "Oracle commit failed: ",
        Phase::Finished => "",
    }
}

impl StatementRun {
    pub closed spec fn view(&self) -> RunView {
        RunView {
            op: self.op,
            size_limit: self.size_limit as nat,
            phase: self.phase,
            columns: column_views(self.columns@),
            rows: views(self.rows@),
            affected: self.affected as nat,
        }
    }

    /// Begin a run; the first thing to do is to set the call timeout.
    pub fn new(op: OracleOp, size_limit: usize) -> (r: (Self, DriverCall))
        ensures
            r.0@ == RunView::start(op, size_limit as nat),
            r.0@.wf(),
            r.1 == DriverCall::SetCallTimeout,
    {
        let run = StatementRun {
            op,
            size_limit,
            phase: Phase::Starting,
            columns: Vec::new(),
            rows: Vec::new(),
            affected: 0,
        };
        assert(run@.columns =~= Seq::<ColumnView>::empty());
        assert(run@.rows =~= Seq::<JsonView>::empty());
        (run, DriverCall::SetCallTimeout)
    }

    fn finish_rows(&mut self) -> (r: Progress)
        ensures
            (final(self)@, r@) == old(self)@.ending_with_rows(),
    {
        let mut rows: Vec<Json> = Vec::new();
        std::mem::swap(&mut rows, &mut self.rows);
        self.phase = Phase::Finished;
        assert(self@.rows =~= Seq::<JsonView>::empty());
        Progress::Done(Ok(QueryOutcome { rows: Some(rows), rows_affected: None }))
    }

    /// Take in an answer of the driver, and say what comes next. A query stops
    /// at its row limit; a mutation succeeds only once it is committed.
    pub fn step(&mut self, event: DriverEvent) -> (r: Progress)
        requires
            old(self)@.wf(),
            old(self)@.awaits(event@),
        ensures
            (final(self)@, r@) == old(self)@.stepped(event@),
            final(self)@.wf(),
    {
        let ghost before = self@;
        match event {
            DriverEvent::Failed(e) => {
                let text = failure(failed_call_text(self.phase), e.as_str());
                self.phase = Phase::Finished;
                Progress::Done(Err(text))
            },
            DriverEvent::TimeoutSet => match self.op {
                OracleOp::Query => {
                    self.phase = Phase::Opening;
                    Progress::Call(DriverCall::Query)
                },
                OracleOp::Execute => {
                    self.phase = Phase::Executing;
                    Progress::Call(DriverCall::Execute)
                },
            },
            DriverEvent::Opened(columns) => {
                self.columns = columns;
                if self.rows.len() < self.size_limit {
                    self.phase = Phase::Fetching;
                    Progress::Call(DriverCall::FetchRow)
                } else {
                    self.finish_rows()
                }
            },
            DriverEvent::Row(cells) => {
                let row = row_to_json(&cells, &self.columns);
                self.rows.push(row);
                assert(self@.rows =~= before.rows.push(row@));
                if self.rows.len() < self.size_limit {
                    Progress::Call(DriverCall::FetchRow)
                } else {
                    self.finish_rows()
                }
            },
            DriverEvent::NoMoreRows => self.finish_rows(),
            DriverEvent::Executed => {
                self.phase = Phase::Counting;
                Progress::Call(DriverCall::RowCount)
            },
            DriverEvent::Counted(n) => {
                self.affected = n;
                self.phase = Phase::Committing;
                Progress::Call(DriverCall::Commit)
            },
            DriverEvent::Committed => {
                self.phase = Phase::Finished;
                Progress::Done(Ok(QueryOutcome { rows: None, rows_affected: Some(self.affected) }))
            },
        }
    }
}

// ----------------------------------------------------------------------- pool

/// What the connection pool answered.
#[derive(Debug, PartialEq)]
pub enum PoolReply {
    /// A connection is at hand.
    Acquired,
    Failed(String),
    TimedOut,
}

/// Why no connection is at hand, if none is.
pub open spec fn acquire_error(reply: PoolReply) -> Option<Seq<char>> {
    match reply {
        PoolReply::Acquired => None,
        PoolReply::Failed(e) => Some("Oracle pool acquire failed: "@ + e@),
        PoolReply::TimedOut => Some("Oracle pool acquire timed out"@),
    }
}

/// Go on once a connection is at hand, else report why there is none.
pub fn check_acquired(reply: PoolReply) -> (r: Result<(), String>)
    ensures
        match r {
            Ok(_) => acquire_error(reply) is None,
            Err(e) => acquire_error(reply) == Some(e@),
        },
{
    match reply {
        PoolReply::Acquired => Ok(()),
        PoolReply::Failed(e) => Err(failure("Oracle pool acquire failed: ", e.as_str())),
        PoolReply::TimedOut => Err("Oracle pool acquire timed out".to_owned()),
    }
}

/// What became of the worker that runs a statement.
#[derive(Debug, PartialEq)]
pub enum WorkerReply {
    /// The statement came to an end, well or badly.
    Finished(Result<QueryOutcome, String>),
    /// The worker died.
    Failed(String),
    TimedOut,
}

/// The result of a statement, whatever became of its worker.
pub open spec fn worked(reply: WorkerReply) -> Result<OutcomeView, Seq<char>> {
    match reply {
        WorkerReply::Finished(r) => result_view(r),
        WorkerReply::Failed(e) => Err("Oracle worker task failed: "@ + e@),
        WorkerReply::TimedOut => Err("Oracle call timed out"@),
    }
}

/// The result of a statement that a worker ran.
pub fn worker_result(reply: WorkerReply) -> (r: Result<QueryOutcome, String>)
    ensures
        result_view(r) == worked(reply),
{
    match reply {
        WorkerReply::Finished(r) => r,
        WorkerReply::Failed(e) => Err(failure("Oracle worker task failed: ", e.as_str())),
        WorkerReply::TimedOut => Err("Oracle call timed out".to_owned()),
    }
}

// ----------------------------------------------------------------------- laws

/// NULL becomes null, whatever the type of its column.
pub proof fn lemma_null_is_null(kind: ColumnType, cell: CellView)
    requires
        cell.int is Null,
        cell.text is Null,
        cell.bytes is Null,
        cell.flag is Null,
    ensures
        cell_json(kind, cell) is Null,
{
}

/// A cell that no read can convert becomes null, whatever the type of its
/// column: one odd value never fails a row.
pub proof fn lemma_unreadable_is_null(kind: ColumnType, cell: CellView)
    requires
        cell.int is Unreadable,
        cell.number is Unreadable,
        cell.text is Unreadable,
        cell.bytes is Unreadable,
        cell.flag is Unreadable,
    ensures
        cell_json(kind, cell) is Null,
{
}

/// A decimal number beyond the 64-bit integers keeps every digit: it becomes its
/// own text, or a JSON number that denotes the same number as the text.
pub proof fn lemma_number_keeps_its_digits(kind: ColumnType, cell: CellView)
    requires
        kind.projected_as() == Projection::Number,
        cell.int is Unreadable,
        cell.text is Value,
    ensures
        match cell_json(kind, cell) {
            JsonView::Text(t) => t == cell.text->Value_0,
            JsonView::Decimal(f) => same_number(f, cell.text->Value_0),
            _ => false,
        },
{
}

/// A row has each column name once, and under the name of the last column the
/// value of that column: of columns with the same name the last one wins.
pub proof fn lemma_last_column_wins(columns: Seq<ColumnView>, cells: Seq<CellView>)
    ensures
        distinct_keys(row_entries(columns, cells)),
        columns.len() > 0 ==> entry_value(row_entries(columns, cells), columns.last().name) == Some(
            cell_json(columns.last().kind, cells[columns.len() - 1]),
        ),
    decreases columns.len(),
{
    if columns.len() > 0 {
        lemma_last_column_wins(columns.drop_last(), cells);
        lemma_with_entry(
            row_entries(columns.drop_last(), cells),
            columns.last().name,
            cell_json(columns.last().kind, cells[columns.len() - 1]),
        );
    }
}

/// A run stays well-formed, and what it ends with respects the row limit and
/// holds either rows or a count.
pub proof fn lemma_step_keeps_limit(run: RunView, event: EventView)
    requires
        run.wf(),
        run.awaits(event),
    ensures
        run.stepped(event).0.wf(),
        run.stepped(event).1 matches ProgressView::Done(Ok(outcome)) ==> {
            &&& outcome.rows is Some <==> run.op == OracleOp::Query
            &&& outcome.rows_affected is Some <==> run.op == OracleOp::Execute
            &&& outcome.rows matches Some(rows) ==> rows.len() <= run.size_limit
        },
{
}

/// A mutation is reported as a success only on the driver's word that it is
/// committed.
pub proof fn lemma_success_means_committed(run: RunView, event: EventView)
    requires
        run.wf(),
        run.awaits(event),
        run.op == OracleOp::Execute,
        run.stepped(event).1 matches ProgressView::Done(Ok(_)),
    ensures
        event is Committed,
        run.phase == Phase::Committing,
{
}

/// A run that is fed one answer after the other.
pub open spec fn driven(run: RunView, events: Seq<EventView>) -> (RunView, ProgressView)
    decreases events.len(),
{
    if events.len() == 0 {
        (run, ProgressView::Call(DriverCall::SetCallTimeout))
    } else {
        driven(run, events.drop_last()).0.stepped(events.last())
    }
}

/// The answers to a query that fetches these rows.
pub open spec fn query_events(columns: Seq<ColumnView>, fetched: Seq<Seq<CellView>>) -> Seq<
    EventView,
> {
    seq![EventView::TimeoutSet, EventView::Opened(columns)] + Seq::new(
        fetched.len(),
        |i: int| EventView::Row(fetched[i]),
    )
}

/// The fetched rows as JSON.
pub open spec fn projected(columns: Seq<ColumnView>, fetched: Seq<Seq<CellView>>) -> Seq<JsonView> {
    Seq::new(fetched.len(), |i: int| JsonView::Object(row_entries(columns, fetched[i])))
}

/// A query returns the rows that it fetched, each projected by its columns, in
/// order: all of them where the driver runs out of rows below the limit, and
/// exactly as many as the limit allows where it does not.
pub proof fn lemma_query_returns_rows(
    limit: nat,
    columns: Seq<ColumnView>,
    fetched: Seq<Seq<CellView>>,
)
    requires
        fetched.len() <= limit,
    ensures
        ({
            let rows = ProgressView::Done(
                Ok(OutcomeView { rows: Some(projected(columns, fetched)), rows_affected: None }),
            );
            let start = RunView::start(OracleOp::Query, limit);
            let events = query_events(columns, fetched);
            if fetched.len() < limit {
                driven(start, events.push(EventView::NoMoreRows)).1 == rows
            } else {
                driven(start, events).1 == rows
            }
        }),
{
    let events = query_events(columns, fetched);
    lemma_query_so_far(limit, columns, fetched);
    assert(events.push(EventView::NoMoreRows).drop_last() =~= events);
}

proof fn lemma_query_so_far(limit: nat, columns: Seq<ColumnView>, fetched: Seq<Seq<CellView>>)
    requires
        fetched.len() <= limit,
    ensures
        ({
            let run = RunView {
                op: OracleOp::Query,
                size_limit: limit,
                phase: Phase::Opening,
                columns,
                rows: projected(columns, fetched),
                affected: 0,
            };
            driven(RunView::start(OracleOp::Query, limit), query_events(columns, fetched))
                == run.fetching_on()
        }),
    decreases fetched.len(),
{
    let start = RunView::start(OracleOp::Query, limit);
    let events = query_events(columns, fetched);
    if fetched.len() == 0 {
        assert(events.drop_last() =~= seq![EventView::TimeoutSet]);
        assert(seq![EventView::TimeoutSet].drop_last() =~= Seq::<EventView>::empty());
        assert(driven(start, Seq::<EventView>::empty()).0 == start);
        assert(driven(start, seq![EventView::TimeoutSet]) == start.stepped(EventView::TimeoutSet));
        assert(projected(columns, fetched) =~= Seq::<JsonView>::empty());
        assert(events.last() == EventView::Opened(columns));
    } else {
        let init = fetched.drop_last();
        lemma_query_so_far(limit, columns, init);
        assert(events.drop_last() =~= query_events(columns, init));
        assert(events.last() == EventView::Row(fetched.last()));
        assert(projected(columns, fetched) =~= projected(columns, init).push(
            JsonView::Object(row_entries(columns, fetched.last())),
        ));
    }
}

/// A mutation that the driver carries out and commits reports the count that
/// the driver gave.
pub proof fn lemma_mutation_returns_count(limit: nat, n: nat)
    ensures
        driven(
            RunView::start(OracleOp::Execute, limit),
            seq![
                EventView::TimeoutSet,
                EventView::Executed,
                EventView::Counted(n),
                EventView::Committed,
            ],
        ).1 == ProgressView::Done(Ok(OutcomeView { rows: None, rows_affected: Some(n) })),
{
    let start = RunView::start(OracleOp::Execute, limit);
    let one = seq![EventView::TimeoutSet];
    let two = one.push(EventView::Executed);
    let three = two.push(EventView::Counted(n));
    let four = three.push(EventView::Committed);
    assert(one.drop_last() =~= Seq::<EventView>::empty());
    assert(two.drop_last() =~= one);
    assert(three.drop_last() =~= two);
    assert(four.drop_last() =~= three);
    assert(driven(start, Seq::<EventView>::empty()).0 == start);
    assert(driven(start, one).0.phase == Phase::Executing);
    assert(driven(start, two).0.phase == Phase::Counting);
    assert(driven(start, three).0.affected == n);
    assert(four =~= seq![
        EventView::TimeoutSet,
        EventView::Executed,
        EventView::Counted(n),
        EventView::Committed,
    ]);
}

/// A cell holds what a driver can give: a 64-bit integer, and a number in the
/// form in which JSON writes it.
pub open spec fn sound_cell(cell: CellView) -> bool {
    &&& cell.int matches Read::Value(i) ==> i64::MIN <= i <= i64::MAX
    &&& cell.number matches Read::Value(t) ==> representable(JsonView::Decimal(t))
}

/// A row that the driver fetched can be written as JSON text, and is flat.
pub proof fn lemma_row_is_writable(columns: Seq<ColumnView>, cells: Seq<CellView>)
    requires
        columns.len() <= cells.len(),
        forall|i: int| 0 <= i < cells.len() ==> sound_cell(#[trigger] cells[i]),
    ensures
        writable(JsonView::Object(row_entries(columns, cells)), 1),
{
    lemma_last_column_wins(columns, cells);
    lemma_row_values_writable(columns, cells);
    lemma_object_writable(row_entries(columns, cells), 0);
}

proof fn lemma_row_values_writable(columns: Seq<ColumnView>, cells: Seq<CellView>)
    requires
        columns.len() <= cells.len(),
        forall|i: int| 0 <= i < cells.len() ==> sound_cell(#[trigger] cells[i]),
    ensures
        forall|i: int|
            0 <= i < row_entries(columns, cells).len() ==> writable(
                (#[trigger] row_entries(columns, cells)[i]).1,
                0,
            ),
    decreases columns.len(),
{
    if columns.len() > 0 {
        let k = columns.len() - 1;
        let before = row_entries(columns.drop_last(), cells);
        let value = cell_json(columns[k].kind, cells[k]);
        lemma_row_values_writable(columns.drop_last(), cells);
        assert(sound_cell(cells[k]));
        assert(writable(value, 0));
        lemma_entries_of_with_entry(before, columns[k].name, value);
        let after = row_entries(columns, cells);
        assert forall|i: int| 0 <= i < after.len() implies writable((#[trigger] after[i]).1, 0) by {
            if after[i].1 != value {
                let j = choose|j: int| 0 <= j < before.len() && before[j] == after[i];
                assert(writable(before[j].1, 0));
            }
        }
    }
}

} // verus!
