//! Running a statement, and the rows that it fetches.

use vstd::prelude::*;

use crate::json::{entry_value, lemma_other_entry, with_entry, JsonView};
use crate::laws::texts::lemma_decimal_denotes;
use crate::numeral::{numeral, run_end, same_number, Numeral};
use crate::oracle::{
    acquire_error, base64_alphabet, base64_text, byte_at, cell_json, driven,
    lemma_last_column_wins, lemma_query_returns_rows, projected, query_events, row_entries, sextet,
    worked, CellView, ColumnType, ColumnView, DriverCall, EventView, Phase, PoolReply,
    ProgressView, Read, RunView, WorkerReply,
};
use crate::text::{decimal, is_digit};
use crate::types::OracleOp;

verus! {

/// A row has the value of each column under the column's name, unless a later
/// column has the same name.
pub proof fn lemma_row_holds_each_column(
    columns: Seq<ColumnView>,
    cells: Seq<CellView>,
    i: int,
)
    requires
        0 <= i < columns.len(),
        forall|j: int| i < j < columns.len() ==> (#[trigger] columns[j]).name != columns[i].name,
    ensures
        JsonView::Object(row_entries(columns, cells)).field(columns[i].name) == Some(
            cell_json(columns[i].kind, cells[i]),
        ),
    decreases columns.len(),
{
    let init = columns.drop_last();
    let k = columns.len() - 1;
    if i == k {
        lemma_last_column_wins(columns, cells);
    } else {
        assert(init[i] == columns[i]);
        assert forall|j: int| i < j < init.len() implies (#[trigger] init[j]).name
            != init[i].name by {
            assert(init[j] == columns[j]);
        }
        lemma_row_holds_each_column(init, cells, i);
        assert(columns[k].name != columns[i].name);
        lemma_other_entry(
            row_entries(init, cells),
            columns[k].name,
            cell_json(columns[k].kind, cells[k]),
            columns[i].name,
        );
    }
}

/// A row has nothing under a name that no column has.
pub proof fn lemma_row_has_no_other_column(
    columns: Seq<ColumnView>,
    cells: Seq<CellView>,
    name: Seq<char>,
)
    requires
        forall|j: int| 0 <= j < columns.len() ==> (#[trigger] columns[j]).name != name,
    ensures
        JsonView::Object(row_entries(columns, cells)).field(name) is None,
    decreases columns.len(),
{
    if columns.len() > 0 {
        let init = columns.drop_last();
        let k = columns.len() - 1;
        assert forall|j: int| 0 <= j < init.len() implies (#[trigger] init[j]).name != name by {
            assert(init[j] == columns[j]);
        }
        lemma_row_has_no_other_column(init, cells, name);
        assert(columns[k].name != name);
        lemma_other_entry(
            row_entries(init, cells),
            columns[k].name,
            cell_json(columns[k].kind, cells[k]),
            name,
        );
    }
}

/// A row of columns with different names has one entry for each column, in the
/// order of the columns, with the column's name and the value of its cell.
pub proof fn lemma_row_keeps_column_order(columns: Seq<ColumnView>, cells: Seq<CellView>)
    requires
        forall|i: int, j: int|
            0 <= i < j < columns.len() ==> (#[trigger] columns[i]).name != (
            #[trigger] columns[j]).name,
    ensures
        row_entries(columns, cells).len() == columns.len(),
        forall|i: int|
            0 <= i < columns.len() ==> #[trigger] row_entries(columns, cells)[i] == (
                columns[i].name,
                cell_json(columns[i].kind, cells[i]),
            ),
    decreases columns.len(),
{
    if columns.len() > 0 {
        let init = columns.drop_last();
        let k = columns.len() - 1;
        assert forall|i: int, j: int| 0 <= i < j < init.len() implies (#[trigger] init[i]).name != (
        #[trigger] init[j]).name by {
            assert(init[i] == columns[i] && init[j] == columns[j]);
        }
        lemma_row_keeps_column_order(init, cells);
        let before = row_entries(init, cells);
        assert forall|j: int| 0 <= j < before.len() implies (#[trigger] before[j]).0
            != columns[k].name by {
            assert(before[j].0 == init[j].name);
            assert(init[j] == columns[j]);
        }
        lemma_new_entry_comes_last(
            before,
            columns[k].name,
            cell_json(columns[k].kind, cells[k]),
        );
        assert forall|i: int| 0 <= i < columns.len() implies #[trigger] row_entries(
            columns,
            cells,
        )[i] == (columns[i].name, cell_json(columns[i].kind, cells[i])) by {
            if i < k {
                assert(before[i] == (init[i].name, cell_json(init[i].kind, cells[i])));
                assert(init[i] == columns[i]);
            }
        }
    }
}

/// Setting a key that is not there adds an entry at the end.
pub proof fn lemma_new_entry_comes_last(
    entries: Seq<(Seq<char>, JsonView)>,
    key: Seq<char>,
    value: JsonView,
)
    requires
        forall|j: int| 0 <= j < entries.len() ==> (#[trigger] entries[j]).0 != key,
    ensures
        with_entry(entries, key, value) == entries.push((key, value)),
        entry_value(entries, key) is None,
    decreases entries.len(),
{
    if entries.len() > 0 {
        let rest = entries.skip(1);
        assert forall|j: int| 0 <= j < rest.len() implies (#[trigger] rest[j]).0 != key by {
            assert(rest[j] == entries[j + 1]);
        }
        lemma_new_entry_comes_last(rest, key, value);
        assert(entries[0].0 != key);
    }
    assert(with_entry(entries, key, value) =~= entries.push((key, value)));
}

/// A cell of a decimal number is the integer where it is one, else the number
/// where that is the same number as the text, else the text. NULL is null.
pub proof fn lemma_number_cells(kind: ColumnType, cell: CellView)
    requires
        kind == ColumnType::Number || kind == ColumnType::Float || kind == ColumnType::Int64 || kind
            == ColumnType::UInt64,
    ensures
        match (cell.int, cell.number, cell.text) {
            (Read::Value(i), _, _) => cell_json(kind, cell) == JsonView::Integer(i),
            (Read::Null, _, _) => cell_json(kind, cell) == JsonView::Null,
            (Read::Unreadable, Read::Value(f), Read::Value(t)) => cell_json(kind, cell) == (
            if same_number(f, t) {
                JsonView::Decimal(f)
            } else {
                JsonView::Text(t)
            }),
            (Read::Unreadable, Read::Value(f), _) => cell_json(kind, cell) == JsonView::Decimal(f),
            (Read::Unreadable, _, Read::Value(t)) => cell_json(kind, cell) == JsonView::Text(t),
            (Read::Unreadable, _, _) => cell_json(kind, cell) == JsonView::Null,
        },
{
}

/// A cell of a binary floating-point number is the integer where it reads as
/// one, else the number, else the text. NULL is null.
pub proof fn lemma_binary_cells(kind: ColumnType, cell: CellView)
    requires
        kind == ColumnType::BinaryFloat || kind == ColumnType::BinaryDouble,
    ensures
        match (cell.int, cell.number, cell.text) {
            (Read::Value(i), _, _) => cell_json(kind, cell) == JsonView::Integer(i),
            (Read::Null, _, _) => cell_json(kind, cell) == JsonView::Null,
            (Read::Unreadable, Read::Value(f), _) => cell_json(kind, cell) == JsonView::Decimal(f),
            (Read::Unreadable, _, Read::Value(t)) => cell_json(kind, cell) == JsonView::Text(t),
            (Read::Unreadable, _, _) => cell_json(kind, cell) == JsonView::Null,
        },
{
}

/// The base64 text of bytes has four characters for each three bytes, and each
/// byte can be read off the two characters that hold its bits.
pub proof fn lemma_base64_holds_the_bytes(bytes: Seq<u8>, g: int)
    requires
        0 <= g,
        3 * g < bytes.len(),
    ensures
        ({
            let text = base64_text(bytes);
            let k = 4 * g;
            let a = sextet(bytes, k);
            let b = sextet(bytes, k + 1);
            let c = sextet(bytes, k + 2);
            let d = sextet(bytes, k + 3);
            &&& text.len() == 4 * ((bytes.len() + 2) / 3)
            &&& 0 <= a < 64 && 0 <= b < 64 && 0 <= c < 64 && 0 <= d < 64
            &&& text[k] == base64_alphabet()[a] && text[k + 1] == base64_alphabet()[b]
            &&& bytes[3 * g] == 4 * a + b / 16
            &&& 3 * g + 1 < bytes.len() ==> text[k + 2] == base64_alphabet()[c] && bytes[3 * g + 1]
                == 16 * (b % 16) + c / 4
            &&& 3 * g + 1 >= bytes.len() ==> text[k + 2] == '='
            &&& 3 * g + 2 < bytes.len() ==> text[k + 3] == base64_alphabet()[d] && bytes[3 * g + 2]
                == 64 * (c % 4) + d
            &&& 3 * g + 2 >= bytes.len() ==> text[k + 3] == '='
        }),
{
    let k = 4 * g;
    assert(k / 4 == g && (k + 1) / 4 == g && (k + 2) / 4 == g && (k + 3) / 4 == g);
    assert(k % 4 == 0 && (k + 1) % 4 == 1 && (k + 2) % 4 == 2 && (k + 3) % 4 == 3);
    let x = byte_at(bytes, 3 * g);
    let y = byte_at(bytes, 3 * g + 1);
    let z = byte_at(bytes, 3 * g + 2);
    let group = 65536 * x + 256 * y + z;
    lemma_three_bytes(x, y, z);
    assert(sextet(bytes, k) == (group / 262144) % 64);
    assert(sextet(bytes, k + 1) == (group / 4096) % 64);
    assert(sextet(bytes, k + 2) == (group / 64) % 64);
    assert(sextet(bytes, k + 3) == group % 64);
}

proof fn lemma_three_bytes(x: int, y: int, z: int)
    requires
        0 <= x < 256,
        0 <= y < 256,
        0 <= z < 256,
    ensures
        ({
            let group = 65536 * x + 256 * y + z;
            &&& (group / 262144) % 64 == x / 4
            &&& (group / 4096) % 64 == 16 * (x % 4) + y / 16
            &&& (group / 64) % 64 == 4 * (y % 16) + z / 64
            &&& group % 64 == z % 64
        }),
{
    let group = 65536 * x + 256 * y + z;
    assert(group / 262144 == x / 4);
    assert(group / 4096 == 16 * x + y / 16);
    assert((16 * x + y / 16) % 64 == 16 * (x % 4) + y / 16);
    assert(group / 64 == 1024 * x + 4 * y + z / 64);
    assert((1024 * x + 4 * y + z / 64) % 64 == 4 * (y % 16) + z / 64);
}

/// A cell of bytes is the base64 text of all its bytes; one that is not read as
/// bytes is its text. NULL is null.
pub proof fn lemma_byte_cells(kind: ColumnType, cell: CellView)
    requires
        kind == ColumnType::Raw || kind == ColumnType::LongRaw || kind == ColumnType::Blob || kind
            == ColumnType::Bfile,
    ensures
        match (cell.bytes, cell.text) {
            (Read::Value(b), _) => cell_json(kind, cell) == JsonView::Text(base64_text(b)),
            (Read::Null, _) => cell_json(kind, cell) == JsonView::Null,
            (Read::Unreadable, Read::Value(t)) => cell_json(kind, cell) == JsonView::Text(t),
            (Read::Unreadable, _) => cell_json(kind, cell) == JsonView::Null,
        },
{
}

/// A cell of a truth value is that truth value; one that is not read as such is
/// its text. NULL is null.
pub proof fn lemma_boolean_cells(cell: CellView)
    ensures
        match (cell.flag, cell.text) {
            (Read::Value(b), _) => cell_json(ColumnType::Boolean, cell) == JsonView::Bool(b),
            (Read::Null, _) => cell_json(ColumnType::Boolean, cell) == JsonView::Null,
            (Read::Unreadable, Read::Value(t)) => cell_json(ColumnType::Boolean, cell)
                == JsonView::Text(t),
            (Read::Unreadable, _) => cell_json(ColumnType::Boolean, cell) == JsonView::Null,
        },
{
}

/// A cell of any other type, of text, of a date, a time or an interval, is its
/// text, whole; what has no text is null.
pub proof fn lemma_text_cells(kind: ColumnType, cell: CellView)
    requires
        kind == ColumnType::Varchar2 || kind == ColumnType::NVarchar2 || kind == ColumnType::Char
            || kind == ColumnType::NChar || kind == ColumnType::Long || kind == ColumnType::Clob
            || kind == ColumnType::NClob || kind == ColumnType::Rowid || kind == ColumnType::Date
            || kind == ColumnType::Timestamp || kind == ColumnType::TimestampTz || kind
            == ColumnType::TimestampLtz || kind == ColumnType::IntervalDs || kind
            == ColumnType::IntervalYm || kind == ColumnType::Other,
    ensures
        match cell.text {
            Read::Value(t) => cell_json(kind, cell) == JsonView::Text(t),
            _ => cell_json(kind, cell) == JsonView::Null,
        },
{
}

proof fn lemma_digits_run_to_the_end(s: Seq<char>, i: int)
    requires
        0 <= i <= s.len(),
        forall|j: int| 0 <= j < s.len() ==> is_digit(#[trigger] s[j]),
    ensures
        run_end(s, i) == s.len(),
    decreases s.len() - i,
{
    if i < s.len() {
        assert(is_digit(s[i]));
        lemma_digits_run_to_the_end(s, i + 1);
    }
}

proof fn lemma_numeral_of_decimal(n: nat)
    ensures
        numeral(decimal(n)) == Some(Numeral { negative: false, digits: decimal(n), low: 0 }),
{
    let s = decimal(n);
    lemma_decimal_denotes(n);
    assert forall|j: int| 0 <= j < s.len() implies is_digit(#[trigger] s[j]) by {
        assert('0' <= s[j] <= '9');
    }
    lemma_digits_run_to_the_end(s, 0);
    lemma_digits_run_to_the_end(s, s.len() as int);
    assert(s.subrange(0, s.len() as int) + s.subrange(s.len() as int, s.len() as int) =~= s);
}

/// The numerals of two numbers denote the same number exactly where the numbers
/// are the same.
pub proof fn lemma_same_whole_number(m: nat, n: nat)
    ensures
        same_number(decimal(m), decimal(n)) <==> m == n,
{
    lemma_numeral_of_decimal(m);
    lemma_numeral_of_decimal(n);
    lemma_decimal_denotes(m);
    lemma_decimal_denotes(n);
    let a = numeral(decimal(m))->0;
    let b = numeral(decimal(n))->0;
    if a.denotes_same(b) {
        if a.digits.len() == b.digits.len() {
            assert forall|i: int| 0 <= i < a.digits.len() implies a.digits[i] == b.digits[i] by {
                let k = a.digits.len() - 1 - i;
                assert(a.place(k) == b.place(k));
            }
            assert(a.digits =~= b.digits);
        } else if a.digits.len() > b.digits.len() {
            let k = a.digits.len() - 1;
            assert(a.place(k) == b.place(k));
        } else {
            let k = b.digits.len() - 1;
            assert(a.place(k) == b.place(k));
        }
    }
}

/// A numeral of a whole part and a fraction.
pub open spec fn fraction(whole: Seq<char>, part: Seq<char>) -> Seq<char> {
    whole.push('.') + part
}

proof fn lemma_run_of(s: Seq<char>, i: int, end: int)
    requires
        0 <= i <= end <= s.len(),
        forall|j: int| i <= j < end ==> is_digit(#[trigger] s[j]),
        end < s.len() ==> !is_digit(s[end]),
    ensures
        run_end(s, i) == end,
    decreases end - i,
{
    if i < end {
        assert(is_digit(s[i]));
        lemma_run_of(s, i + 1, end);
    }
}

proof fn lemma_numeral_of_fraction(whole: Seq<char>, part: Seq<char>)
    requires
        whole.len() > 0,
        forall|j: int| 0 <= j < whole.len() ==> is_digit(#[trigger] whole[j]),
        forall|j: int| 0 <= j < part.len() ==> is_digit(#[trigger] part[j]),
    ensures
        numeral(fraction(whole, part)) == Some(
            Numeral { negative: false, digits: whole + part, low: -part.len() },
        ),
{
    let s = fraction(whole, part);
    let b = whole.len() as int;
    assert(is_digit(whole[0]));
    assert(s[0] == whole[0]);
    assert(s[b] == '.');
    assert forall|j: int| 0 <= j < b implies is_digit(#[trigger] s[j]) by {
        assert(s[j] == whole[j]);
    }
    assert forall|j: int| b < j < s.len() implies is_digit(#[trigger] s[j]) by {
        assert(s[j] == part[j - b - 1]);
    }
    lemma_run_of(s, 0, b);
    lemma_run_of(s, b + 1, s.len() as int);
    assert(s.subrange(0, b) =~= whole);
    assert(s.subrange(b + 1, s.len() as int) =~= part);
}

/// A zero at the end of a fraction does not count; any other difference between
/// two numerals with as many digits before and behind the point does.
pub proof fn lemma_fractions_compare_by_digits(
    whole: Seq<char>,
    part: Seq<char>,
    other_whole: Seq<char>,
    other_part: Seq<char>,
)
    requires
        whole.len() > 0,
        whole.len() == other_whole.len(),
        part.len() == other_part.len(),
        forall|j: int| 0 <= j < whole.len() ==> is_digit(#[trigger] whole[j]),
        forall|j: int| 0 <= j < part.len() ==> is_digit(#[trigger] part[j]),
        forall|j: int| 0 <= j < other_whole.len() ==> is_digit(#[trigger] other_whole[j]),
        forall|j: int| 0 <= j < other_part.len() ==> is_digit(#[trigger] other_part[j]),
    ensures
        same_number(fraction(whole, part), fraction(whole, part.push('0'))),
        same_number(fraction(whole, part), fraction(other_whole, other_part)) <==> whole
            == other_whole && part == other_part,
{
    lemma_numeral_of_fraction(whole, part);
    lemma_numeral_of_fraction(other_whole, other_part);
    lemma_numeral_of_fraction(whole, part.push('0'));
    let a = numeral(fraction(whole, part))->0;
    let b = numeral(fraction(other_whole, other_part))->0;
    let c = numeral(fraction(whole, part.push('0')))->0;
    assert forall|k: int| a.place(k) == c.place(k) by {
        if 0 <= k - a.low < a.digits.len() {
            assert(c.digits[a.digits.len() - 1 - (k - a.low)] == a.digits[a.digits.len() - 1 - (k
                - a.low)]);
        }
    }
    if a.denotes_same(b) {
        assert forall|i: int| 0 <= i < a.digits.len() implies a.digits[i] == b.digits[i] by {
            let k = a.low + (a.digits.len() - 1 - i);
            assert(a.place(k) == b.place(k));
        }
        assert(whole =~= other_whole) by {
            assert forall|i: int| 0 <= i < whole.len() implies whole[i] == other_whole[i] by {
                assert(a.digits[i] == b.digits[i]);
            }
        }
        assert(part =~= other_part) by {
            assert forall|i: int| 0 <= i < part.len() implies part[i] == other_part[i] by {
                assert(a.digits[whole.len() + i] == b.digits[whole.len() + i]);
            }
        }
    }
}

/// An exponent counts for as many zeros behind the number.
pub proof fn lemma_exponent_counts_for_zeros(n: nat, k: nat)
    requires
        decimal(k).len() <= 9,
    ensures
        same_number(
            decimal(n).push('e') + decimal(k),
            decimal(n) + Seq::new(k, |i: int| '0'),
        ),
{
    let d = decimal(n);
    let e = decimal(k);
    lemma_decimal_denotes(n);
    lemma_decimal_denotes(k);
    assert forall|j: int| 0 <= j < d.len() implies is_digit(#[trigger] d[j]) by {
        assert('0' <= d[j] <= '9');
    }
    assert forall|j: int| 0 <= j < e.len() implies is_digit(#[trigger] e[j]) by {
        assert('0' <= e[j] <= '9');
    }
    let s = d.push('e') + e;
    let b = d.len() as int;
    assert(s[0] == d[0] && is_digit(d[0]));
    assert(s[b] == 'e');
    assert(s[b + 1] == e[0] && is_digit(e[0]));
    assert forall|j: int| 0 <= j < b implies is_digit(#[trigger] s[j]) by {
        assert(s[j] == d[j]);
    }
    assert forall|j: int| b < j < s.len() implies is_digit(#[trigger] s[j]) by {
        assert(s[j] == e[j - b - 1]);
    }
    lemma_run_of(s, 0, b);
    lemma_run_of(s, b, b);
    lemma_run_of(s, b + 1, s.len() as int);
    assert(s.subrange(0, b) + s.subrange(b, b) =~= d);
    assert(s.subrange(b + 1, s.len() as int) =~= e);
    let x = Numeral { negative: false, digits: d, low: k as int };
    assert(numeral(s) == Some(x));
    let t = d + Seq::new(k, |i: int| '0');
    assert(t[0] == d[0]);
    assert forall|j: int| 0 <= j < t.len() implies is_digit(#[trigger] t[j]) by {
        if j < b {
            assert(t[j] == d[j]);
        }
    }
    lemma_run_of(t, 0, t.len() as int);
    lemma_run_of(t, t.len() as int, t.len() as int);
    assert(t.subrange(0, t.len() as int) + t.subrange(t.len() as int, t.len() as int) =~= t);
    let y = Numeral { negative: false, digits: t, low: 0 };
    assert(numeral(t) == Some(y));
    assert forall|p: int| x.place(p) == y.place(p) by {
        if 0 <= p < t.len() {
            if p >= k {
                assert(t[t.len() - 1 - p] == d[d.len() - 1 - (p - k)]);
            }
        }
    }
}

/// To denote the same number goes both ways.
pub proof fn lemma_same_number_is_mutual(s: Seq<char>, t: Seq<char>)
    ensures
        same_number(s, t) ==> same_number(t, s),
        numeral(s) is Some ==> same_number(s, s),
{
    if same_number(s, t) {
        let a = numeral(s)->0;
        let b = numeral(t)->0;
        assert forall|k: int| b.place(k) == a.place(k) by {
            assert(a.place(k) == b.place(k));
        }
        if a.is_zero() {
            assert forall|i: int| 0 <= i < b.digits.len() implies #[trigger] b.digits[i] == '0' by {
                let k = b.low + (b.digits.len() - 1 - i);
                assert(b.place(k) == b.digits[i]);
                assert(a.place(k) == b.place(k));
            }
        }
    }
}

/// A run asks for the driver's calls in their order: the timeout, then for a
/// query its opening and a row as long as the limit allows, and for a mutation
/// its execution, its count and its commit.
pub proof fn lemma_run_asks_in_order(run: RunView)
    ensures
        run.op == OracleOp::Query ==> run.stepped(EventView::TimeoutSet).1 == ProgressView::Call(
            DriverCall::Query,
        ),
        run.op == OracleOp::Execute ==> run.stepped(EventView::TimeoutSet).1 == ProgressView::Call(
            DriverCall::Execute,
        ),
        run.stepped(EventView::Executed).1 == ProgressView::Call(DriverCall::RowCount),
        forall|n: nat| (#[trigger] run.stepped(EventView::Counted(n))).1 == ProgressView::Call(
            DriverCall::Commit,
        ),
        forall|columns: Seq<ColumnView>|
            run.rows.len() < run.size_limit ==> (#[trigger] run.stepped(
                EventView::Opened(columns),
            )).1 == ProgressView::Call(DriverCall::FetchRow),
        forall|cells: Seq<CellView>|
            run.rows.len() + 1 < run.size_limit ==> (#[trigger] run.stepped(
                EventView::Row(cells),
            )).1 == ProgressView::Call(DriverCall::FetchRow),
{
}

/// A call of the driver that fails ends the run, with a text that says which call
/// it was and why it failed, whole.
pub proof fn lemma_failure_ends_the_run(run: RunView, e: Seq<char>)
    ensures
        run.stepped(EventView::Failed(e)).0.phase == Phase::Finished,
        ({
            let what = match run.phase {
                Phase::Starting => "Oracle set_call_timeout failed: "@,
                Phase::Opening => "Oracle query failed: "@,
                Phase::Fetching => "Oracle row read failed: "@,
                Phase::Executing => "Oracle execute failed: "@,
                Phase::Counting => "Oracle row_count failed: "@,
                Phase::Committing => "Oracle commit failed: "@,
                Phase::Finished => ""@,
            };
            run.stepped(EventView::Failed(e)).1 == ProgressView::Done(Err(what + e))
        }),
{
}

/// A query returns every row that it fetched, in order: each row of the result
/// is an object that has, under the name of each column, the value of that
/// column's cell in the fetched row.
pub proof fn lemma_query_loses_no_row(
    limit: nat,
    columns: Seq<ColumnView>,
    fetched: Seq<Seq<CellView>>,
)
    requires
        fetched.len() < limit,
        forall|i: int, j: int|
            0 <= i < j < columns.len() ==> (#[trigger] columns[i]).name != (
            #[trigger] columns[j]).name,
    ensures
        ({
            let end = driven(
                RunView::start(OracleOp::Query, limit),
                query_events(columns, fetched).push(EventView::NoMoreRows),
            ).1;
            &&& end matches ProgressView::Done(Ok(outcome))
            &&& outcome.rows_affected is None
            &&& outcome.rows matches Some(rows)
            &&& rows.len() == fetched.len()
            &&& forall|r: int, i: int|
                0 <= r < fetched.len() && 0 <= i < columns.len() ==> (
                #[trigger] rows[r]).field((#[trigger] columns[i]).name) == Some(
                    cell_json(columns[i].kind, fetched[r][i]),
                )
        }),
{
    lemma_query_returns_rows(limit, columns, fetched);
    let rows = projected(columns, fetched);
    assert forall|r: int, i: int| 0 <= r < fetched.len() && 0 <= i < columns.len() implies (
    #[trigger] rows[r]).field((#[trigger] columns[i]).name) == Some(
        cell_json(columns[i].kind, fetched[r][i]),
    ) by {
        lemma_row_holds_each_column(columns, fetched[r], i);
    }
}

/// A connection that could not be acquired, a worker that died and a call that
/// ran out of time are reported as such, with the reason, whole; what a worker
/// came to is handed on as it is.
pub proof fn lemma_pool_and_worker_reports(acquired: PoolReply, reply: WorkerReply)
    ensures
        match acquired {
            PoolReply::Acquired => acquire_error(acquired) is None,
            PoolReply::Failed(e) => acquire_error(acquired) == Some(
                "Oracle pool acquire failed: "@ + e@,
            ),
            PoolReply::TimedOut => acquire_error(acquired) == Some(
                "Oracle pool acquire timed out"@,
            ),
        },
        match reply {
            WorkerReply::Finished(Ok(outcome)) => worked(reply) matches Ok(o) && o == outcome@,
            WorkerReply::Finished(Err(e)) => worked(reply) matches Err(why) && why == e@,
            WorkerReply::Failed(e) => worked(reply) matches Err(why) && why
                == "Oracle worker task failed: "@ + e@,
            WorkerReply::TimedOut => worked(reply) matches Err(why) && why
                == "Oracle call timed out"@,
        },
{
}

} // verus!
