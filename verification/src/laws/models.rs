//! The models of the library's values show the values.

use vstd::prelude::*;

use crate::call::{evaluated_view, header_views, Answer, StatementPlan};
use crate::codec::{nests_within, number_read, representable};
use crate::envelope::{count_view, json_view, name_views, rows_view};
use crate::json::{entry_views, lemma_entry_value, views, Json, JsonView};
use crate::laws::rows::lemma_new_entry_comes_last;
use crate::oracle::{Cell, Column, DriverEvent, EventView, QueryOutcome, Read};
use crate::params::{
    bind_views, sources, BindView, BoundValue, BoundView, CompiledParam, OracleBind,
};
use crate::plugin::{same_binding, OracleProfile};
use crate::surface::{resource_views, ListedResource, Surface};
use crate::types::{OracleOp, OracleOperation};

verus! {

/// The model of a JSON value shows it: scalars as they are, and arrays and
/// objects item by item, in order.
pub proof fn lemma_json_is_shown(v: Json)
    ensures
        match v {
            Json::Null => v@ == JsonView::Null,
            Json::Bool(b) => v@ == JsonView::Bool(b),
            Json::Integer(n) => v@ == JsonView::Integer(n as int),
            Json::Decimal(t) => v@ == JsonView::Decimal(t@),
            Json::Text(t) => v@ == JsonView::Text(t@),
            Json::Array(items) => v@ is Array && v@->Array_0.len() == items@.len() && forall|i: int|
                0 <= i < items@.len() ==> #[trigger] v@->Array_0[i] == items@[i]@,
            Json::Object(entries) => v@ is Object && v@->Object_0.len() == entries@.len()
                && forall|i: int|
                0 <= i < entries@.len() ==> #[trigger] v@->Object_0[i] == (
                    entries@[i].0@,
                    entries@[i].1@,
                ),
        },
{
    broadcast use Json::lemma_view;

}

/// The model of a bind, and of what the driver is given, shows it.
pub proof fn lemma_binds_are_shown(bind: OracleBind, bound: BoundValue)
    ensures
        match bind {
            OracleBind::Null => bind@ == BindView::Null,
            OracleBind::Int(n) => bind@ == BindView::Int(n as int),
            OracleBind::Float(t) => bind@ == BindView::Float(t@),
            OracleBind::Bool(b) => bind@ == BindView::Bool(b),
            OracleBind::Str(t) => bind@ == BindView::Str(t@),
        },
        match bound {
            BoundValue::NullText => bound@ == BoundView::NullText,
            BoundValue::Int(n) => bound@ == BoundView::Int(n as int),
            BoundValue::Float(t) => bound@ == BoundView::Float(t@),
            BoundValue::Flag(n) => bound@ == BoundView::Flag(n as int),
            BoundValue::Text(t) => bound@ == BoundView::Text(t@),
        },
{
}

/// The model of an outcome shows all its rows, in order, and its count.
pub proof fn lemma_outcome_is_shown(outcome: QueryOutcome)
    ensures
        outcome.rows matches Some(rows) ==> {
            &&& outcome@.rows matches Some(shown)
            &&& shown.len() == rows@.len()
            &&& forall|i: int| 0 <= i < rows@.len() ==> #[trigger] shown[i] == rows@[i]@
            &&& outcome@.row_list() == shown
        },
        outcome.rows is None ==> outcome@.rows is None && outcome@.row_list().len() == 0,
        outcome.rows_affected matches Some(n) ==> outcome@.rows_affected == Some(n as nat),
        outcome.rows_affected is None ==> outcome@.rows_affected is None,
{
}

/// The model of a plan shows its text, all its binds in order, its op and its row
/// limit.
pub proof fn lemma_plan_is_shown(plan: StatementPlan)
    ensures
        plan@.sql == plan.sql@,
        plan@.op == plan.op,
        plan@.size_limit == plan.size_limit,
        plan@.binds.len() == plan.binds@.len(),
        forall|i: int| 0 <= i < plan.binds@.len() ==> #[trigger] plan@.binds[i] == plan.binds@[i]@,
{
}

/// The model of an answer shows its body, its label and its reason.
pub proof fn lemma_answer_is_shown(answer: Answer)
    ensures
        answer@.body == answer.body@,
        answer@.label == answer.label@,
        answer.reason matches Some(why) ==> answer@.reason == Some(why@),
        answer.reason is None ==> answer@.reason is None,
{
}

/// The model of a listed resource shows its parts.
pub proof fn lemma_resource_is_shown(r: ListedResource)
    ensures
        r@.uri == r.uri@,
        r.name matches Some(t) ==> r@.name == Some(t@),
        r.name is None ==> r@.name is None,
        r.description matches Some(t) ==> r@.description == Some(t@),
        r.description is None ==> r@.description is None,
        r.mime_type matches Some(t) ==> r@.mime_type == Some(t@),
        r.mime_type is None ==> r@.mime_type is None,
{
}

/// The model of a column and of a cell shows what was read.
pub proof fn lemma_cells_are_shown(column: Column, cell: Cell)
    ensures
        column@.name == column.name@,
        column@.kind == column.kind,
        match cell.int {
            Read::Value(n) => cell@.int == Read::Value(n as int),
            Read::Null => cell@.int == Read::<int>::Null,
            Read::Unreadable => cell@.int == Read::<int>::Unreadable,
        },
        match cell.number {
            Read::Value(t) => cell@.number == Read::Value(t@),
            Read::Null => cell@.number == Read::<Seq<char>>::Null,
            Read::Unreadable => cell@.number == Read::<Seq<char>>::Unreadable,
        },
        match cell.text {
            Read::Value(t) => cell@.text == Read::Value(t@),
            Read::Null => cell@.text == Read::<Seq<char>>::Null,
            Read::Unreadable => cell@.text == Read::<Seq<char>>::Unreadable,
        },
        match cell.bytes {
            Read::Value(b) => cell@.bytes == Read::Value(b@),
            Read::Null => cell@.bytes == Read::<Seq<u8>>::Null,
            Read::Unreadable => cell@.bytes == Read::<Seq<u8>>::Unreadable,
        },
        cell@.flag == cell.flag,
{
}

/// The model of a driver's answer shows it: all columns and all cells, in order.
pub proof fn lemma_events_are_shown(event: DriverEvent)
    ensures
        match event {
            DriverEvent::Failed(e) => event@ == EventView::Failed(e@),
            DriverEvent::TimeoutSet => event@ == EventView::TimeoutSet,
            DriverEvent::Opened(columns) => event@ is Opened && event@->Opened_0.len()
                == columns@.len() && forall|i: int|
                0 <= i < columns@.len() ==> #[trigger] event@->Opened_0[i] == columns@[i]@,
            DriverEvent::Row(cells) => event@ is Row && event@->Row_0.len() == cells@.len()
                && forall|i: int|
                0 <= i < cells@.len() ==> #[trigger] event@->Row_0[i] == cells@[i]@,
            DriverEvent::NoMoreRows => event@ == EventView::NoMoreRows,
            DriverEvent::Executed => event@ == EventView::Executed,
            DriverEvent::Counted(n) => event@ == EventView::Counted(n as nat),
            DriverEvent::Committed => event@ == EventView::Committed,
        },
{
}

/// The models of lists show every item, in order.
pub proof fn lemma_lists_are_shown(
    items: Seq<Json>,
    entries: Seq<(String, Json)>,
    binds: Seq<OracleBind>,
    resources: Seq<ListedResource>,
    params: Seq<CompiledParam>,
    headers: Seq<(String, String)>,
    names: Seq<&str>,
    i: int,
)
    ensures
        views(items).len() == items.len(),
        0 <= i < items.len() ==> views(items)[i] == items[i]@,
        entry_views(entries).len() == entries.len(),
        0 <= i < entries.len() ==> entry_views(entries)[i] == (entries[i].0@, entries[i].1@),
        bind_views(binds).len() == binds.len(),
        0 <= i < binds.len() ==> bind_views(binds)[i] == binds[i]@,
        resource_views(resources).len() == resources.len(),
        0 <= i < resources.len() ==> resource_views(resources)[i] == resources[i]@,
        sources(params).len() == params.len(),
        0 <= i < params.len() ==> sources(params)[i] == params[i].source@,
        header_views(headers).len() == headers.len(),
        0 <= i < headers.len() ==> header_views(headers)[i] == (headers[i].0@, headers[i].1@),
        name_views(names).len() == names.len(),
        0 <= i < names.len() ==> name_views(names)[i] == names[i]@,
{
}

/// The models of optional parts show the part where it is there.
pub proof fn lemma_options_are_shown(
    rows: Option<&[Json]>,
    value: Option<&Json>,
    count: Option<u64>,
    evaluated: Result<Vec<Json>, String>,
)
    ensures
        rows matches Some(r) ==> {
            &&& rows_view(rows) matches Some(shown)
            &&& shown.len() == r@.len()
            &&& forall|i: int| 0 <= i < r@.len() ==> #[trigger] shown[i] == r@[i]@
        },
        rows is None ==> rows_view(rows) is None,
        value matches Some(v) ==> json_view(value) == Some(v@),
        value is None ==> json_view(value) is None,
        count matches Some(n) ==> count_view(count) == Some(n as nat),
        count is None ==> count_view(count) is None,
        evaluated matches Ok(v) ==> {
            &&& evaluated_view(evaluated) matches Ok(shown)
            &&& shown.len() == v@.len()
            &&& forall|i: int| 0 <= i < v@.len() ==> #[trigger] shown[i] == v@[i]@
        },
        evaluated matches Err(e) ==> (evaluated_view(evaluated) matches Err(why) && why == e@),
{
}

/// The field of an object is the value of the first entry that has the key; there
/// is none where no entry has it, and nothing but an object has fields.
pub proof fn lemma_field_is_the_first_entry(
    entries: Seq<(Seq<char>, JsonView)>,
    key: Seq<char>,
    i: int,
    other: JsonView,
)
    requires
        0 <= i <= entries.len(),
        forall|j: int| 0 <= j < i ==> (#[trigger] entries[j]).0 != key,
        i < entries.len() ==> entries[i].0 == key,
        !(other is Object),
    ensures
        i < entries.len() ==> JsonView::Object(entries).field(key) == Some(entries[i].1),
        i == entries.len() ==> JsonView::Object(entries).field(key) is None,
        other.field(key) is None,
        i < entries.len() ==> (match entries[i].1 {
            JsonView::Text(t) => JsonView::Object(entries).text_field(key) == Some(t),
            _ => JsonView::Object(entries).text_field(key) is None,
        }),
{
    if i < entries.len() {
        lemma_entry_value(entries, key, i);
    } else {
        lemma_new_entry_comes_last(entries, key, JsonView::Null);
    }
}

/// JSON can hold null, every truth value, every text, every integer from the
/// least signed to the greatest unsigned one of 64 bits, every other number as
/// `serde_json` writes it, and arrays and objects of what it can hold, where no
/// key is there twice.
pub proof fn lemma_what_json_can_hold(v: JsonView)
    ensures
        match v {
            JsonView::Null => representable(v),
            JsonView::Bool(_) => representable(v),
            JsonView::Text(_) => representable(v),
            JsonView::Integer(n) => representable(v) <==> -0x8000_0000_0000_0000 <= n
                <= 0xffff_ffff_ffff_ffff,
            JsonView::Decimal(t) => representable(v) <==> number_read(t) == Some(v),
            JsonView::Array(items) => representable(v) <==> forall|i: int|
                0 <= i < items.len() ==> representable(#[trigger] items[i]),
            JsonView::Object(entries) => representable(v) <==> (forall|i: int, j: int|
                0 <= i < j < entries.len() ==> (#[trigger] entries[i]).0 != (
                #[trigger] entries[j]).0) && forall|i: int|
                0 <= i < entries.len() ==> representable((#[trigger] entries[i]).1),
        },
{
}

/// A scalar does not nest; an array or an object nests one level deeper than what
/// is in it.
pub proof fn lemma_how_deep_json_nests(v: JsonView, n: nat)
    ensures
        match v {
            JsonView::Array(items) => (nests_within(v, n + 1) <==> forall|i: int|
                0 <= i < items.len() ==> nests_within(#[trigger] items[i], n)) && !nests_within(
                v,
                0,
            ),
            JsonView::Object(entries) => (nests_within(v, n + 1) <==> forall|i: int|
                0 <= i < entries.len() ==> nests_within((#[trigger] entries[i]).1, n))
                && !nests_within(v, 0),
            _ => nests_within(v, n),
        },
{
}

/// Two descriptions of the same binding agree in everything.
pub proof fn lemma_same_bindings_agree(a: OracleProfile, b: OracleProfile)
    requires
        same_binding(a, b),
    ensures
        a.manager == b.manager,
        a.pool_max_size == b.pool_max_size,
        a.dsn == b.dsn,
        a.query == b.query,
        a.op == b.op,
        a.operation == b.operation,
        a.catalog_filters == b.catalog_filters,
        a.size_limit == b.size_limit,
        a.timeout_ms == b.timeout_ms,
        a.surface == b.surface,
        a.surface_uri == b.surface_uri,
        a.list_query == b.list_query,
        a.read_query == b.read_query,
        a.compiled_params@.len() == b.compiled_params@.len(),
        forall|i: int|
            0 <= i < b.compiled_params@.len() ==> (#[trigger] a.compiled_params@[i]).source@
                == b.compiled_params@[i].source@,
        a.variable_completions@ == b.variable_completions@,
{
    let x = sources(a.compiled_params@);
    let y = sources(b.compiled_params@);
    assert(x.len() == a.compiled_params@.len() && y.len() == b.compiled_params@.len());
    assert forall|i: int| 0 <= i < b.compiled_params@.len() implies (
    #[trigger] a.compiled_params@[i]).source@ == b.compiled_params@[i].source@ by {
        assert(x[i] == a.compiled_params@[i].source@);
        assert(y[i] == b.compiled_params@[i].source@);
    }
}

/// The words that stand for what a binding does and serves.
pub proof fn lemma_words()
    ensures
        OracleOp::Query.word() == "query"@,
        OracleOp::Execute.word() == "execute"@,
        OracleOperation::Query.word() == "query"@,
        OracleOperation::ListTables.word() == "list_tables"@,
        OracleOperation::ListColumns.word() == "list_columns"@,
        Surface::Tool.word() == "tool"@,
        Surface::Resource.word() == "resource"@,
        Surface::Prompt.word() == "prompt"@,
        !OracleOperation::Query.catalog(),
        OracleOperation::ListTables.catalog(),
        OracleOperation::ListColumns.catalog(),
{
}

} // verus!
