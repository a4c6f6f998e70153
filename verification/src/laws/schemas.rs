//! What a binding tells of itself.

use vstd::prelude::*;

use crate::catalog::result_columns;
use crate::envelope::{cell_schema, envelope_schema, of_type, of_type_or_null};
use crate::json::{distinct_keys, JsonView};
use crate::laws::answers::lemma_field;
use crate::laws::rows::lemma_new_entry_comes_last;
use crate::params::{
    add_new, idents_from, lemma_named_properties, lemma_names_referenced, named_properties,
    names_referenced, open_object_schema, sources,
};
use crate::plugin::OracleProfile;
use crate::schema::{arguments_of, operation_of, row_items};
use crate::types::OracleOperation;

verus! {

/// The schema of a binding's arguments is an open object that has each argument
/// that the binding reads as a property without demands, and no other property.
pub proof fn lemma_input_schema_is_open(names: Seq<Seq<char>>, name: Seq<char>)
    ensures
        ({
            let s = open_object_schema(named_properties(names, JsonView::Object(Seq::empty())));
            &&& s.field("type"@) == Some(JsonView::Text("object"@))
            &&& s.field("additionalProperties"@) == Some(JsonView::Bool(true))
            &&& s.field("properties"@) matches Some(properties)
            &&& names.contains(name) ==> properties.field(name) == Some(
                JsonView::Object(Seq::empty()),
            )
            &&& !names.contains(name) ==> properties.field(name) is None
        }),
{
    let e = open_object_schema(named_properties(names, JsonView::Object(Seq::empty())))->Object_0;
    reveal_strlit("type");
    reveal_strlit("properties");
    reveal_strlit("additionalProperties");
    assert(e[0].0.len() == 4 && e[1].0.len() == 10 && e[2].0.len() == 20);
    assert(distinct_keys(e));
    lemma_field(e, 0);
    lemma_field(e, 1);
    lemma_field(e, 2);
    lemma_named_properties(names, JsonView::Object(Seq::empty()));
}

/// A binding reads the arguments that its parameters refer to, or as a catalog
/// operation those that its filters name; a binding that is not there reads
/// none.
pub proof fn lemma_arguments_that_a_binding_reads(
    profiles: Map<Seq<char>, OracleProfile>,
    backend_name: Seq<char>,
    name: Seq<char>,
)
    ensures
        ({
            let names = arguments_of(profiles, backend_name);
            let p = profiles[backend_name];
            &&& !profiles.dom().contains(backend_name) ==> names.len() == 0
            &&& profiles.dom().contains(backend_name) && p.operation == OracleOperation::Query
                ==> (names.contains(name) <==> exists|i: int|
                0 <= i < p.compiled_params@.len() && idents_from(
                    (#[trigger] p.compiled_params@[i]).source@,
                    0,
                ).contains(name))
            &&& profiles.dom().contains(backend_name) && p.operation != OracleOperation::Query
                ==> names == p.catalog_filters.names()
        }),
{
    let p = profiles[backend_name];
    let all = sources(p.compiled_params@);
    lemma_names_referenced(all);
    if profiles.dom().contains(backend_name) && p.operation == OracleOperation::Query {
        let names = arguments_of(profiles, backend_name);
        assert(names == names_referenced(all));
        if names.contains(name) {
            let i = choose|i: int|
                0 <= i < all.len() && idents_from(#[trigger] all[i], 0).contains(name);
            assert(all[i] == p.compiled_params@[i].source@);
        }
        if exists|i: int|
            0 <= i < p.compiled_params@.len() && idents_from(
                (#[trigger] p.compiled_params@[i]).source@,
                0,
            ).contains(name) {
            let i = choose|i: int|
                0 <= i < p.compiled_params@.len() && idents_from(
                    (#[trigger] p.compiled_params@[i]).source@,
                    0,
                ).contains(name);
            assert(all[i] == p.compiled_params@[i].source@);
            assert(idents_from(all[i], 0).contains(name));
        }
    }
}

/// The names that the parameters refer to come in the order of the parameters: a
/// further parameter leaves those before it in their places, and adds the new
/// names that it refers to behind them, in its own order.
pub proof fn lemma_names_keep_their_order(all: Seq<Seq<char>>, source: Seq<char>)
    ensures
        ({
            let before = names_referenced(all);
            let after = names_referenced(all.push(source));
            let found = idents_from(source, 0);
            &&& before.len() <= after.len() && after.take(before.len() as int) == before
            &&& found.no_duplicates() && (forall|i: int|
                0 <= i < found.len() ==> !before.contains(#[trigger] found[i])) ==> after == before
                + found
        }),
{
    assert(all.push(source).drop_last() =~= all);
    lemma_adding_keeps_order(names_referenced(all), idents_from(source, 0));
}

proof fn lemma_adding_keeps_order(names: Seq<Seq<char>>, more: Seq<Seq<char>>)
    ensures
        names.len() <= add_new(names, more).len(),
        add_new(names, more).take(names.len() as int) == names,
        more.no_duplicates() && (forall|i: int|
            0 <= i < more.len() ==> !names.contains(#[trigger] more[i])) ==> add_new(names, more)
            == names + more,
    decreases more.len(),
{
    if more.len() == 0 {
        assert(names.take(names.len() as int) =~= names);
        assert(names + more =~= names);
    } else {
        let rest = more.skip(1);
        if names.contains(more[0]) {
            lemma_adding_keeps_order(names, rest);
        } else {
            let next = names.push(more[0]);
            lemma_adding_keeps_order(next, rest);
            let out = add_new(next, rest);
            assert(out.take(names.len() as int) =~= out.take(next.len() as int).take(
                names.len() as int,
            ));
            assert(next.take(names.len() as int) =~= names);
            if more.no_duplicates() && (forall|i: int|
                0 <= i < more.len() ==> !names.contains(#[trigger] more[i])) {
                assert(rest.no_duplicates());
                assert forall|i: int| 0 <= i < rest.len() implies !next.contains(
                    #[trigger] rest[i],
                ) by {
                    assert(rest[i] == more[i + 1]);
                    if next.contains(rest[i]) {
                        let k = choose|k: int| 0 <= k < next.len() && next[k] == rest[i];
                        if k < names.len() {
                            assert(names[k] == more[i + 1]);
                            assert(names.contains(more[i + 1]));
                        } else {
                            assert(more[0] == more[i + 1]);
                        }
                    }
                }
                assert(next + rest =~= names + more);
            }
        }
    }
}

/// The properties of the input schema come in the order of the names.
pub proof fn lemma_properties_keep_their_order(names: Seq<Seq<char>>, schema: JsonView)
    requires
        names.no_duplicates(),
    ensures
        named_properties(names, schema).len() == names.len(),
        forall|i: int|
            0 <= i < names.len() ==> #[trigger] named_properties(names, schema)[i] == (
                names[i],
                schema,
            ),
    decreases names.len(),
{
    if names.len() > 0 {
        let init = names.drop_last();
        lemma_properties_keep_their_order(init, schema);
        let before = named_properties(init, schema);
        assert forall|j: int| 0 <= j < before.len() implies (#[trigger] before[j]).0
            != names.last() by {
            assert(before[j] == (init[j], schema));
            assert(init[j] == names[j]);
        }
        lemma_new_entry_comes_last(before, names.last(), schema);
    }
}

proof fn lemma_open_object(e: Seq<(Seq<char>, JsonView)>)
    requires
        e.len() == 3,
        e[0].0 == "type"@,
        e[1].0 == "properties"@,
        e[2].0 == "additionalProperties"@,
    ensures
        JsonView::Object(e).field("type"@) == Some(e[0].1),
        JsonView::Object(e).field("properties"@) == Some(e[1].1),
        JsonView::Object(e).field("additionalProperties"@) == Some(e[2].1),
{
    reveal_strlit("type");
    reveal_strlit("properties");
    reveal_strlit("additionalProperties");
    assert(e[0].0.len() == 4 && e[1].0.len() == 10 && e[2].0.len() == 20);
    assert(distinct_keys(e));
    lemma_field(e, 0);
    lemma_field(e, 1);
    lemma_field(e, 2);
}

/// A schema demands a value of this type.
pub open spec fn demands(s: Option<JsonView>, name: Seq<char>) -> bool {
    s matches Some(schema) && schema.field("type"@) == Some(JsonView::Text(name))
}

/// A schema demands a value of this type, or null.
pub open spec fn allows_null(s: Option<JsonView>, name: Seq<char>) -> bool {
    s matches Some(schema) && schema.field("type"@) == Some(
        JsonView::Array(seq![JsonView::Text(name), JsonView::Text("null"@)]),
    )
}

proof fn lemma_demands(name: Seq<char>)
    ensures
        demands(Some(of_type(name)), name),
        allows_null(Some(of_type_or_null(name)), name),
{
    let a = of_type(name)->Object_0;
    let b = of_type_or_null(name)->Object_0;
    assert(distinct_keys(a) && distinct_keys(b));
    lemma_field(a, 0);
    lemma_field(b, 0);
    assert(b[0].1->Array_0 =~= seq![JsonView::Text(name), JsonView::Text("null"@)]);
}

/// The schema of an envelope types its rows by the schema of a row, and is open
/// to other properties.
pub proof fn lemma_envelope_schema_types_the_rows(items: JsonView)
    ensures
        ({
            let s = envelope_schema(items);
            &&& s.field("$schema"@) == Some(
                JsonView::Text("https://json-schema.org/draft/2020-12/schema"@),
            )
            &&& demands(Some(s), "object"@)
            &&& s.field("additionalProperties"@) == Some(JsonView::Bool(true))
            &&& s.field("properties"@) matches Some(properties)
            &&& demands(properties.field("toolName"@), "string"@)
            &&& demands(properties.field("profile"@), "string"@)
            &&& demands(properties.field("request"@), "object"@)
            &&& properties.field("request"@)->0.field("properties"@) matches Some(request)
            &&& demands(request.field("dsn"@), "string"@)
            &&& demands(request.field("op"@), "string"@)
            &&& allows_null(properties.field("downstreamError"@), "object"@)
            &&& demands(properties.field("downstreamErrors"@), "array"@)
            &&& allows_null(properties.field("error"@), "string"@)
            &&& properties.field("response"@) matches Some(response)
            &&& allows_null(Some(response), "object"@)
            &&& response.field("properties"@) matches Some(parts)
            &&& allows_null(parts.field("count"@), "integer"@)
            &&& allows_null(parts.field("rowsAffected"@), "integer"@)
            &&& demands(parts.field("durationMs"@), "integer"@)
            &&& parts.field("rows"@) matches Some(rows)
            &&& allows_null(Some(rows), "array"@)
            &&& rows.field("items"@) == Some(items)
        }),
{
    let e = envelope_schema(items)->Object_0;
    reveal_strlit("$schema");
    reveal_strlit("type");
    reveal_strlit("properties");
    reveal_strlit("additionalProperties");
    assert(e[0].0.len() == 7 && e[1].0.len() == 4 && e[2].0.len() == 10 && e[3].0.len() == 20);
    assert(distinct_keys(e));
    lemma_field(e, 0);
    lemma_field(e, 1);
    lemma_field(e, 2);
    lemma_field(e, 3);
    lemma_demands("string"@);
    lemma_demands("object"@);
    lemma_demands("integer"@);
    let p = e[2].1->Object_0;
    reveal_strlit("toolName");
    reveal_strlit("profile");
    reveal_strlit("request");
    reveal_strlit("response");
    reveal_strlit("downstreamError");
    reveal_strlit("downstreamErrors");
    reveal_strlit("error");
    assert(p[0].0.len() == 8 && p[1].0.len() == 7 && p[2].0.len() == 7 && p[3].0.len() == 8);
    assert(p[4].0.len() == 15 && p[5].0.len() == 16 && p[6].0.len() == 5);
    assert(p[0].0[0] != p[3].0[0] && p[1].0[0] != p[2].0[0]);
    assert(distinct_keys(p));
    lemma_field(p, 0);
    lemma_field(p, 1);
    lemma_field(p, 2);
    lemma_field(p, 3);
    lemma_field(p, 4);
    lemma_field(p, 5);
    lemma_field(p, 6);
    let request = p[2].1->Object_0;
    lemma_open_object(request);
    let names = request[1].1->Object_0;
    reveal_strlit("dsn");
    reveal_strlit("op");
    assert(names[0].0.len() == 3 && names[1].0.len() == 2);
    assert(distinct_keys(names));
    lemma_field(names, 0);
    lemma_field(names, 1);
    reveal_strlit("items");
    let list = p[5].1->Object_0;
    assert(list[0].0.len() == 4 && list[1].0.len() == 5);
    assert(distinct_keys(list));
    lemma_field(list, 0);
    let response = p[3].1->Object_0;
    lemma_open_object(response);
    assert(response[0].1->Array_0 =~= seq![JsonView::Text("object"@), JsonView::Text("null"@)]);
    let parts = response[1].1->Object_0;
    reveal_strlit("rows");
    reveal_strlit("count");
    reveal_strlit("rowsAffected");
    reveal_strlit("durationMs");
    assert(parts[0].0.len() == 4 && parts[1].0.len() == 5 && parts[2].0.len() == 12
        && parts[3].0.len() == 10);
    assert(distinct_keys(parts));
    lemma_field(parts, 0);
    lemma_field(parts, 1);
    lemma_field(parts, 2);
    lemma_field(parts, 3);
    let rows = parts[0].1->Object_0;
    assert(rows[0].0.len() == 4 && rows[1].0.len() == 5);
    assert(distinct_keys(rows));
    lemma_field(rows, 0);
    lemma_field(rows, 1);
    assert(rows[0].1->Array_0 =~= seq![JsonView::Text("array"@), JsonView::Text("null"@)]);
}

/// The rows of a query, and of a binding that is not there, have a schema without
/// demands; those of a catalog operation have one for each column of the data
/// dictionary view that is selected, a text, a number or null, and are open to
/// others.
pub proof fn lemma_catalog_rows_have_these_columns(operation: OracleOperation, column: Seq<char>)
    ensures
        operation == OracleOperation::Query ==> row_items(operation) == JsonView::Object(
            Seq::empty(),
        ),
        operation != OracleOperation::Query ==> {
            let s = row_items(operation);
            let known = column == "OWNER"@ || column == "TABLE_NAME"@ || (operation
                == OracleOperation::ListTables && column == "TABLESPACE_NAME"@) || (operation
                == OracleOperation::ListColumns && (column == "COLUMN_NAME"@ || column
                == "DATA_TYPE"@ || column == "DATA_LENGTH"@ || column == "NULLABLE"@ || column
                == "COLUMN_ID"@));
            &&& s.field("type"@) == Some(JsonView::Text("object"@))
            &&& s.field("additionalProperties"@) == Some(JsonView::Bool(true))
            &&& s.field("properties"@) matches Some(properties)
            &&& known ==> (properties.field(column) matches Some(cell) && cell.field("type"@)
                == Some(
                JsonView::Array(
                    seq![
                        JsonView::Text("string"@),
                        JsonView::Text("number"@),
                        JsonView::Text("null"@),
                    ],
                ),
            ))
            &&& !known ==> properties.field(column) is None
        },
{
    if operation == OracleOperation::Query {
        assert(row_items(operation)->Object_0 =~= Seq::<(Seq<char>, JsonView)>::empty());
    } else {
        let names = result_columns(operation);
        lemma_open_object(row_items(operation)->Object_0);
        lemma_named_properties(names, cell_schema());
        let cell = cell_schema()->Object_0;
        assert(distinct_keys(cell));
        lemma_field(cell, 0);
        assert(cell[0].1->Array_0 =~= seq![
            JsonView::Text("string"@),
            JsonView::Text("number"@),
            JsonView::Text("null"@),
        ]);
        if operation == OracleOperation::ListTables {
            assert(names[0] == "OWNER"@ && names[1] == "TABLE_NAME"@ && names[2]
                == "TABLESPACE_NAME"@ && names.len() == 3);
        } else {
            assert(names[0] == "OWNER"@ && names[1] == "TABLE_NAME"@ && names[2]
                == "COLUMN_NAME"@ && names[3] == "DATA_TYPE"@ && names[4] == "DATA_LENGTH"@
                && names[5] == "NULLABLE"@ && names[6] == "COLUMN_ID"@ && names.len() == 7);
        }
        if names.contains(column) {
            let i = choose|i: int| 0 <= i < names.len() && names[i] == column;
            assert(i == 0 || i == 1 || i == 2 || i == 3 || i == 4 || i == 5 || i == 6);
        }
    }
}

/// The operation of a binding is the one that it was registered with; a binding
/// that is not there counts as a query.
pub proof fn lemma_operation_of_a_binding(
    profiles: Map<Seq<char>, OracleProfile>,
    backend_name: Seq<char>,
)
    ensures
        profiles.dom().contains(backend_name) ==> operation_of(profiles, backend_name)
            == profiles[backend_name].operation,
        !profiles.dom().contains(backend_name) ==> operation_of(profiles, backend_name)
            == OracleOperation::Query,
{
}

} // verus!
