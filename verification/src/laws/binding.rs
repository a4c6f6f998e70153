//! What a call runs, and what it binds.

use vstd::prelude::*;

use crate::call::{catalog_plan, planned, PlanView};
use crate::catalog::{catalog_sql, resolved_one};
use crate::json::JsonView;
use crate::laws::texts::{lemma_decimal_denotes, lemma_integers_differ_in_text};
use crate::params::{boxed, lowered, BindView, BoundView};
use crate::plugin::OracleProfile;
use crate::surface::Surface;
use crate::text::{decimal, decimal_int};
use crate::types::{OracleOp, OracleOperation};

verus! {

/// A number that is no whole number, as JSON writes it: something in it is
/// neither a digit nor a sign.
pub open spec fn has_fraction_or_exponent(t: Seq<char>) -> bool {
    exists|i: int| 0 <= i < t.len() && !('0' <= #[trigger] t[i] <= '9') && t[i] != '-'
}

/// A query whose parameters evaluated has a plan exactly where no value is an
/// array or an object; and then it has one bind for each value, in order: null
/// for null, a truth value for that truth value, a 64-bit integer for that
/// integer, its JSON text for any other number, and a text for that text, whole.
pub proof fn lemma_binds_show_the_values(p: OracleProfile, a: JsonView, values: Seq<JsonView>)
    requires
        p.operation == OracleOperation::Query,
    ensures
        planned(p, a, Ok(values)) is Ok <==> forall|i: int|
            0 <= i < values.len() ==> !(#[trigger] values[i] is Array) && !(values[i] is Object),
        planned(p, a, Ok(values)) matches Ok(plan) ==> {
            &&& plan.binds.len() == values.len()
            &&& forall|i: int|
                0 <= i < values.len() ==> match #[trigger] values[i] {
                    JsonView::Null => plan.binds[i] == BindView::Null,
                    JsonView::Bool(b) => plan.binds[i] == BindView::Bool(b),
                    JsonView::Integer(n) => if -0x8000_0000_0000_0000 <= n
                        <= 0x7fff_ffff_ffff_ffff {
                        plan.binds[i] == BindView::Int(n)
                    } else {
                        plan.binds[i] == BindView::Float(decimal_int(n))
                    },
                    JsonView::Decimal(t) => plan.binds[i] == BindView::Float(t),
                    JsonView::Text(t) => plan.binds[i] == BindView::Str(t),
                    JsonView::Array(_) => false,
                    JsonView::Object(_) => false,
                }
        },
        planned(p, a, Ok(values)) matches Err(e) ==> e
            == "binding params: array and object values cannot be bound as a scalar Oracle parameter"@,
{
    reveal_strlit("binding params: ");
    reveal_strlit("array and object values cannot be bound as a scalar Oracle parameter");
    reveal_strlit(
        "binding params: array and object values cannot be bound as a scalar Oracle parameter",
    );
    assert("binding params: "@
        + "array and object values cannot be bound as a scalar Oracle parameter"@
        =~= "binding params: array and object values cannot be bound as a scalar Oracle parameter"@);
    assert forall|i: int| 0 <= i < values.len() implies (lowered(values[i]) is Some <==> !(
    #[trigger] values[i] is Array) && !(values[i] is Object)) by {}
    if let Ok(plan) = planned(p, a, Ok(values)) {
        assert forall|i: int| 0 <= i < values.len() implies lowered(#[trigger] values[i]) == Some(
            plan.binds[i],
        ) by {
            assert(lowered(values[i]) is Some);
        }
    }
}

/// Binding loses nothing: a truth value is bound as that truth value, only null
/// is bound as null, and different values are bound differently.
pub proof fn lemma_binding_loses_nothing(
    p: OracleProfile,
    a: JsonView,
    values: Seq<JsonView>,
    others: Seq<JsonView>,
    i: int,
)
    requires
        p.operation == OracleOperation::Query,
        planned(p, a, Ok(values)) is Ok,
        planned(p, a, Ok(others)) is Ok,
        0 <= i < values.len(),
        0 <= i < others.len(),
        values[i] matches JsonView::Decimal(t) ==> has_fraction_or_exponent(t),
        others[i] matches JsonView::Decimal(t) ==> has_fraction_or_exponent(t),
    ensures
        ({
            let bind = planned(p, a, Ok(values))->Ok_0.binds[i];
            let other = planned(p, a, Ok(others))->Ok_0.binds[i];
            &&& values[i] matches JsonView::Bool(b) ==> bind == BindView::Bool(b)
            &&& bind == BindView::Null <==> values[i] is Null
            &&& bind == other <==> values[i] == others[i]
        }),
{
    lemma_binds_show_the_values(p, a, values);
    lemma_binds_show_the_values(p, a, others);
    match (values[i], others[i]) {
        (JsonView::Integer(m), JsonView::Integer(n)) => {
            lemma_integers_differ_in_text(m, n);
        },
        (JsonView::Integer(m), JsonView::Decimal(t)) => {
            lemma_whole_number_has_no_fraction(m);
        },
        (JsonView::Decimal(t), JsonView::Integer(n)) => {
            lemma_whole_number_has_no_fraction(n);
        },
        _ => {},
    }
}

proof fn lemma_whole_number_has_no_fraction(n: int)
    ensures
        !has_fraction_or_exponent(decimal_int(n)),
{
    let size = if n < 0 {
        (-n) as nat
    } else {
        n as nat
    };
    lemma_decimal_denotes(size);
    let t = decimal_int(n);
    assert forall|i: int| 0 <= i < t.len() implies '0' <= #[trigger] t[i] <= '9' || t[i] == '-' by {
        if n < 0 && i > 0 {
            assert(t[i] == decimal(size)[i - 1]);
        }
    }
}

/// What the driver is given for a parameter is its value: null for null and for
/// nothing else, 1 for true and 0 for false, an integer, the text of another
/// number, and a text, whole.
pub proof fn lemma_driver_is_given_the_values(
    p: OracleProfile,
    a: JsonView,
    values: Seq<JsonView>,
    i: int,
)
    requires
        p.operation == OracleOperation::Query,
        planned(p, a, Ok(values)) is Ok,
        0 <= i < values.len(),
    ensures
        ({
            let given = boxed(planned(p, a, Ok(values))->Ok_0.binds[i]);
            &&& given == BoundView::NullText <==> values[i] is Null
            &&& values[i] == JsonView::Bool(true) ==> given == BoundView::Flag(1)
            &&& values[i] == JsonView::Bool(false) ==> given == BoundView::Flag(0)
            &&& values[i] matches JsonView::Integer(n) ==> (if -0x8000_0000_0000_0000 <= n
                <= 0x7fff_ffff_ffff_ffff {
                given == BoundView::Int(n)
            } else {
                given == BoundView::Float(decimal_int(n))
            })
            &&& values[i] matches JsonView::Decimal(t) ==> given == BoundView::Float(t)
            &&& values[i] matches JsonView::Text(t) ==> given == BoundView::Text(t)
        }),
{
    lemma_binds_show_the_values(p, a, values);
    assert(values[i] == values[i]);
}

/// The driver is given what a bind holds, one form for each kind of bind.
pub proof fn lemma_driver_forms(n: int, t: Seq<char>)
    ensures
        boxed(BindView::Null) == BoundView::NullText,
        boxed(BindView::Int(n)) == BoundView::Int(n),
        boxed(BindView::Float(t)) == BoundView::Float(t),
        boxed(BindView::Bool(true)) == BoundView::Flag(1),
        boxed(BindView::Bool(false)) == BoundView::Flag(0),
        boxed(BindView::Str(t)) == BoundView::Text(t),
{
}

/// A query runs the binding's statement with the binding's op, or on the resource
/// surface its `read_query`, which only reads; never more rows are asked for than
/// the binding allows. Parameters that do not evaluate leave it without a plan.
pub proof fn lemma_query_runs_the_binding(
    p: OracleProfile,
    a: JsonView,
    evaluated: Result<Seq<JsonView>, Seq<char>>,
)
    requires
        p.operation == OracleOperation::Query,
    ensures
        planned(p, a, evaluated) matches Ok(plan) ==> {
            &&& evaluated is Ok
            &&& plan.size_limit == p.size_limit
            &&& p.surface == Surface::Resource && p.read_query is Some ==> plan.sql
                == p.read_query->0@ && plan.op == OracleOp::Query
            &&& p.surface != Surface::Resource || p.read_query is None ==> plan.sql == p.query@
                && plan.op == p.op
        },
        evaluated matches Err(e) ==> planned(p, a, evaluated) == Err::<
            PlanView,
            Seq<char>,
        >("evaluating params: "@ + e),
{
}

/// A filter is what the call has under the filter's argument, where that is a
/// text and not empty; else what the operator pinned, where that is not empty;
/// else there is none.
pub proof fn lemma_filter_is_given_or_pinned(
    pinned: Option<Seq<char>>,
    arg_name: Option<Seq<char>>,
    arguments: JsonView,
)
    ensures
        ({
            let filter = resolved_one(pinned, arg_name, arguments);
            let given = match arg_name {
                Some(name) => arguments.field(name),
                None => None,
            };
            match given {
                Some(JsonView::Text(t)) if t.len() > 0 => filter == Some(t),
                _ => match pinned {
                    Some(s) if s.len() > 0 => filter == Some(s),
                    _ => filter is None,
                },
            }
        }),
{
}

/// A catalog operation runs as a query, with the binding's row limit, and passes
/// each filter that is there as one bind, whole: the owner first, then the table.
pub proof fn lemma_catalog_binds_the_filters(
    p: OracleProfile,
    a: JsonView,
    evaluated: Result<Seq<JsonView>, Seq<char>>,
)
    requires
        p.operation != OracleOperation::Query,
    ensures
        planned(p, a, evaluated) == Ok::<PlanView, Seq<char>>(catalog_plan(p, a)),
        ({
            let plan = catalog_plan(p, a);
            let owner = resolved_one(
                p.catalog_filters.owner.deep_view(),
                p.catalog_filters.owner_arg.deep_view(),
                a,
            );
            let table = resolved_one(
                p.catalog_filters.table.deep_view(),
                p.catalog_filters.table_arg.deep_view(),
                a,
            );
            &&& plan.op == OracleOp::Query
            &&& plan.size_limit == p.size_limit
            &&& plan.sql == catalog_sql(p.operation, owner, table)
            &&& match (owner, table) {
                (Some(o), Some(t)) => plan.binds == seq![BindView::Str(o), BindView::Str(t)],
                (Some(o), None) => plan.binds == seq![BindView::Str(o)],
                (None, Some(t)) => plan.binds == seq![BindView::Str(t)],
                (None, None) => plan.binds == Seq::<BindView>::empty(),
            }
        }),
{
    let plan = catalog_plan(p, a);
    let owner = resolved_one(
        p.catalog_filters.owner.deep_view(),
        p.catalog_filters.owner_arg.deep_view(),
        a,
    );
    let table = resolved_one(
        p.catalog_filters.table.deep_view(),
        p.catalog_filters.table_arg.deep_view(),
        a,
    );
    match (owner, table) {
        (Some(o), Some(t)) => {
            assert(plan.binds =~= seq![BindView::Str(o), BindView::Str(t)]);
        },
        (Some(o), None) => {
            assert(plan.binds =~= seq![BindView::Str(o)]);
        },
        (None, Some(t)) => {
            assert(plan.binds =~= seq![BindView::Str(t)]);
        },
        (None, None) => {
            assert(plan.binds =~= Seq::<BindView>::empty());
        },
    }
}

} // verus!
