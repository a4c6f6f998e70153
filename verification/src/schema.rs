//! What a binding tells of itself: the schemas of its arguments and of its
//! results, and the metadata of its audit trail.

use vstd::prelude::*;

use crate::catalog::{result_columns, LIST_COLUMNS_COLUMNS, LIST_TABLES_COLUMNS};
use crate::envelope::{
    any_value, catalog_envelope_schema, cell_schema, envelope_schema, name_views,
    result_envelope_schema, row_schema,
};
use crate::json::{entry, entry_value, entry_views, Json, JsonView};
use crate::params::{
    arguments_referenced_by_params, lemma_named_properties, named_properties, names_referenced, open_object_schema,
    params_input_schema, sources,
};
use crate::plugin::{OracleBackendPlugin, OracleProfile};
use crate::types::OracleOperation;

verus! {

/// What a row of an operation looks like: a catalog operation has known
/// columns, a query may return anything.
pub open spec fn row_items(operation: OracleOperation) -> JsonView {
    if operation.catalog() {
        row_schema(result_columns(operation))
    } else {
        any_value()
    }
}

/// The operation of the binding of a name; an unknown binding counts as a query.
pub open spec fn operation_of(
    profiles: Map<Seq<char>, OracleProfile>,
    backend_name: Seq<char>,
) -> OracleOperation {
    if profiles.dom().contains(backend_name) {
        profiles[backend_name].operation
    } else {
        OracleOperation::Query
    }
}

/// The arguments that a binding reads: for a catalog operation those of its
/// filters, else those that its parameters refer to.
pub open spec fn argument_names(p: OracleProfile) -> Seq<Seq<char>> {
    if p.operation.catalog() {
        p.catalog_filters.names()
    } else {
        names_referenced(sources(p.compiled_params@))
    }
}

/// The arguments that the binding of a name reads; an unknown binding reads
/// none.
pub open spec fn arguments_of(
    profiles: Map<Seq<char>, OracleProfile>,
    backend_name: Seq<char>,
) -> Seq<Seq<char>> {
    if profiles.dom().contains(backend_name) {
        argument_names(profiles[backend_name])
    } else {
        Seq::empty()
    }
}

impl OracleBackendPlugin {
    /// The entries that every audit event of a binding carries.
    pub fn audit_metadata(&self, _backend_name: &str) -> (r: Vec<(String, Json)>)
        ensures
            entry_views(r@) == seq![("oracle.transport"@, JsonView::Text("plugin"@))],
    {
        let entries = vec![entry("oracle.transport", Json::text("plugin"))];
        assert(entry_views(entries@) =~= seq![("oracle.transport"@, JsonView::Text("plugin"@))]);
        entries
    }

    /// The schema of the envelope that a binding emits. The rows of a catalog
    /// operation are typed by the known columns.
    pub fn output_schema(&self, backend_name: &str) -> (r: Option<Json>)
        requires
            self.wf(),
        ensures
            r matches Some(schema) && schema@ == envelope_schema(
                row_items(operation_of(self@, backend_name@)),
            ),
    {
        let operation = match self.profile(backend_name) {
            Some(p) => p.operation,
            None => OracleOperation::Query,
        };
        let schema = match operation {
            OracleOperation::Query => result_envelope_schema(),
            OracleOperation::ListTables => {
                let columns = LIST_TABLES_COLUMNS;
                assert(name_views(columns@) =~= result_columns(operation));
                catalog_envelope_schema(columns.as_slice())
            },
            OracleOperation::ListColumns => {
                let columns = LIST_COLUMNS_COLUMNS;
                assert(name_views(columns@) =~= result_columns(operation));
                catalog_envelope_schema(columns.as_slice())
            },
        };
        Some(schema)
    }

    /// The schema of a binding's arguments: an open object that names those
    /// that the binding reads.
    pub fn input_schema(&self, backend_name: &str) -> (r: Option<Json>)
        requires
            self.wf(),
        ensures
            r matches Some(schema) && schema@ == open_object_schema(
                named_properties(
                    arguments_of(self@, backend_name@),
                    JsonView::Object(Seq::empty()),
                ),
            ),
    {
        let names = match self.profile(backend_name) {
            Some(p) => if p.operation.is_catalog() {
                p.catalog_filters.argument_names()
            } else {
                arguments_referenced_by_params(p.compiled_params.as_slice())
            },
            None => {
                let none: Vec<String> = Vec::new();
                assert(none.deep_view() =~= Seq::<Seq<char>>::empty());
                none
            },
        };
        Some(params_input_schema(names.as_slice()))
    }
}

// ----------------------------------------------------------------------- laws

/// The properties of the input schema are exactly the arguments that the
/// binding reads, and none of them is typed.
pub proof fn lemma_input_schema_names_arguments(
    profiles: Map<Seq<char>, OracleProfile>,
    backend_name: Seq<char>,
    name: Seq<char>,
)
    ensures
        entry_value(
            named_properties(
                arguments_of(profiles, backend_name),
                JsonView::Object(Seq::empty()),
            ),
            name,
        ) == (if arguments_of(profiles, backend_name).contains(name) {
            Some(JsonView::Object(Seq::empty()))
        } else {
            None
        }),
{
    lemma_named_properties(arguments_of(profiles, backend_name), JsonView::Object(Seq::empty()));
}

/// The row schema of a catalog operation types exactly the columns that its
/// statement selects.
pub proof fn lemma_catalog_rows_are_typed(operation: OracleOperation, column: Seq<char>)
    requires
        operation.catalog(),
    ensures
        entry_value(named_properties(result_columns(operation), cell_schema()), column) == (
        if result_columns(operation).contains(column) {
            Some(cell_schema())
        } else {
            None
        }),
        row_items(operation)->Object_0[1] == (
            "properties"@,
            JsonView::Object(named_properties(result_columns(operation), cell_schema())),
        ),
{
    lemma_named_properties(result_columns(operation), cell_schema());
}

} // verus!
