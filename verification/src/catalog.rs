//! Data-dictionary introspection: the `list_tables` and `list_columns`
//! operations.
//!
//! Discovery runs ordinary `SELECT`s on the `ALL_TABLES` and `ALL_TAB_COLUMNS`
//! views. A filter that an operator or a caller supplies is bound as a
//! parameter and never becomes part of the statement text, so it can narrow the
//! metadata but not alter the query.

use vstd::prelude::*;
use vstd::string::*;

use crate::json::{Json, JsonView};
use crate::params::{bind_views, push_new, BindView, OracleBind};
use crate::text::lower;
use crate::types::OracleOperation;

verus! {

/// The filters of one call. An absent owner stands for the connected user's
/// schema, an absent table for all visible tables.
#[derive(Debug, Clone, PartialEq, Eq)]
pub struct CatalogFilters {
    pub owner: Option<String>,
    pub table: Option<String>,
}

impl Default for CatalogFilters {
    fn default() -> (r: Self)
        ensures
            r.owner is None,
            r.table is None,
    {
        CatalogFilters { owner: None, table: None }
    }
}

/// The filters of a binding: for each, a value that the operator pins and the
/// tool argument that may override it.
#[derive(Debug, PartialEq)]
pub struct CatalogFilterConfig {
    pub owner: Option<String>,
    pub table: Option<String>,
    pub owner_arg: Option<String>,
    pub table_arg: Option<String>,
}

impl Default for CatalogFilterConfig {
    fn default() -> (r: Self)
        ensures
            r.owner is None,
            r.table is None,
            r.owner_arg is None,
            r.table_arg is None,
    {
        CatalogFilterConfig { owner: None, table: None, owner_arg: None, table_arg: None }
    }
}

impl Clone for CatalogFilterConfig {
    fn clone(&self) -> (r: Self)
        ensures
            r == *self,
    {
        CatalogFilterConfig {
            owner: self.owner.clone(),
            table: self.table.clone(),
            owner_arg: self.owner_arg.clone(),
            table_arg: self.table_arg.clone(),
        }
    }
}

/// A text that is there and not empty.
pub open spec fn non_empty(s: Option<Seq<char>>) -> Option<Seq<char>> {
    match s {
        Some(t) => if t.len() > 0 {
            Some(t)
        } else {
            None
        },
        None => None,
    }
}

/// What the caller supplies for a filter: the text under the argument's name.
pub open spec fn supplied(arg_name: Option<Seq<char>>, arguments: JsonView) -> Option<Seq<char>> {
    match arg_name {
        Some(name) => arguments.text_field(name),
        None => None,
    }
}

/// The value of one filter: what the caller supplies, else what the operator
/// pinned; an empty text counts as none.
pub open spec fn resolved_one(
    static_value: Option<Seq<char>>,
    arg_name: Option<Seq<char>>,
    arguments: JsonView,
) -> Option<Seq<char>> {
    match non_empty(supplied(arg_name, arguments)) {
        Some(v) => Some(v),
        None => non_empty(static_value),
    }
}

/// Resolve one filter: a non-empty text that the caller supplies overrides the
/// static value.
pub fn resolve_one(
    static_value: Option<&str>,
    arg_name: Option<&str>,
    arguments: &Json,
) -> (r: Option<String>)
    ensures
        r.deep_view() == resolved_one(
            static_value.deep_view(),
            arg_name.deep_view(),
            arguments@,
        ),
{
    if let Some(name) = arg_name {
        if let Some(v) = arguments.get_text(name) {
            if !v.is_empty() {
                return Some(v.to_owned());
            }
        }
    }
    match static_value {
        Some(s) => if s.is_empty() {
            None
        } else {
            Some(s.to_owned())
        },
        None => None,
    }
}

/// A borrowed form of an optional string.
pub fn as_text(s: &Option<String>) -> (r: Option<&str>)
    ensures
        r.deep_view() == s.deep_view(),
{
    match s {
        Some(t) => Some(t.as_str()),
        None => None,
    }
}

impl CatalogFilterConfig {
    /// The argument names that the filters read, each once, the owner's first.
    pub open spec fn names(&self) -> Seq<Seq<char>> {
        match (self.owner_arg, self.table_arg) {
            (Some(o), Some(t)) => if o@ == t@ {
                seq![o@]
            } else {
                seq![o@, t@]
            },
            (Some(o), None) => seq![o@],
            (None, Some(t)) => seq![t@],
            (None, None) => seq![],
        }
    }

    /// Resolve the filters for one call.
    #[must_use]
    pub fn resolve(&self, arguments: &Json) -> (r: CatalogFilters)
        ensures
            r.owner.deep_view() == resolved_one(
                self.owner.deep_view(),
                self.owner_arg.deep_view(),
                arguments@,
            ),
            r.table.deep_view() == resolved_one(
                self.table.deep_view(),
                self.table_arg.deep_view(),
                arguments@,
            ),
    {
        CatalogFilters {
            owner: resolve_one(as_text(&self.owner), as_text(&self.owner_arg), arguments),
            table: resolve_one(as_text(&self.table), as_text(&self.table_arg), arguments),
        }
    }

    /// The distinct argument names that the filters read, in filter order.
    #[must_use]
    pub fn argument_names(&self) -> (r: Vec<String>)
        ensures
            r.deep_view() == self.names(),
    {
        let mut names: Vec<String> = Vec::new();
        assert(names.deep_view() =~= Seq::<Seq<char>>::empty());
        if let Some(owner) = &self.owner_arg {
            push_new(&mut names, owner.clone());
            assert(names.deep_view() =~= seq![owner@]);
        }
        let ghost before = names.deep_view();
        if let Some(table) = &self.table_arg {
            push_new(&mut names, table.clone());
            proof {
                if let Some(owner) = &self.owner_arg {
                    assert(before[0] == owner@);
                    assert(before.contains(table@) <==> owner@ == table@);
                }
                assert(names.deep_view() =~= self.names());
            }
        }
        names
    }
}

// ------------------------------------------------------------------ statements

/// The owner predicate. The owner's value is no part of it.
pub open spec fn owner_predicate(owner: Option<Seq<char>>) -> Seq<char> {
    match owner {
        Some(_) => "owner = :owner"@,
        None => "owner = USER"@,
    }
}

/// The table predicate. The table's value is no part of it.
pub open spec fn table_predicate(table: Option<Seq<char>>) -> Seq<char> {
    match table {
        Some(_) => " AND table_name = :tbl"@,
        None => ""@,
    }
}

/// What a catalog statement begins with.
pub open spec fn select_head(operation: OracleOperation) -> Seq<char> {
    match operation {
        OracleOperation::ListColumns =>
            "SELECT owner, table_name, column_name, data_type, data_length, nullable, column_id FROM all_tab_columns WHERE "@,
        _ => "SELECT owner, table_name, tablespace_name FROM all_tables WHERE "@,
    }
}

/// What a catalog statement ends with.
pub open spec fn order_tail(operation: OracleOperation) -> Seq<char> {
    match operation {
        OracleOperation::ListColumns => " ORDER BY owner, table_name, column_id"@,
        _ => " ORDER BY owner, table_name"@,
    }
}

/// The statement text of an operation, given the filters.
pub open spec fn catalog_sql(
    operation: OracleOperation,
    owner: Option<Seq<char>>,
    table: Option<Seq<char>>,
) -> Seq<char> {
    if operation.catalog() {
        select_head(operation) + owner_predicate(owner) + table_predicate(table) + order_tail(
            operation,
        )
    } else {
        "SELECT 1 FROM dual"@
    }
}

/// A filter's bind, where the filter is there.
pub open spec fn filter_bind(filter: Option<Seq<char>>) -> Seq<BindView> {
    match filter {
        Some(t) => seq![BindView::Str(t)],
        None => seq![],
    }
}

/// The binds of an operation, in the order of their placeholders.
pub open spec fn catalog_binds(
    operation: OracleOperation,
    owner: Option<Seq<char>>,
    table: Option<Seq<char>>,
) -> Seq<BindView> {
    if operation.catalog() {
        filter_bind(owner) + filter_bind(table)
    } else {
        filter_bind(owner)
    }
}

/// Build the statement and the binds of a catalog operation. A filter shows in
/// the text as the placeholder `:owner` or `:tbl` only; its value is bound by
/// position.
#[must_use]
pub fn build_query(operation: OracleOperation, filters: &CatalogFilters) -> (r: (
    String,
    Vec<OracleBind>,
))
    ensures
        r.0@ == catalog_sql(operation, filters.owner.deep_view(), filters.table.deep_view()),
        bind_views(r.1@) == catalog_binds(
            operation,
            filters.owner.deep_view(),
            filters.table.deep_view(),
        ),
{
    let ghost owner_view = filters.owner.deep_view();
    let ghost table_view = filters.table.deep_view();
    let mut binds: Vec<OracleBind> = Vec::new();
    let owner_pred = match &filters.owner {
        Some(owner) => {
            binds.push(OracleBind::Str(owner.clone()));
            "owner = :owner"
        },
        None => "owner = USER",
    };
    assert(bind_views(binds@) =~= filter_bind(owner_view));
    let (head, tail) = match operation {
        OracleOperation::ListTables => (
            "SELECT owner, table_name, tablespace_name FROM all_tables WHERE ",
            " ORDER BY owner, table_name",
        ),
        OracleOperation::ListColumns => (
            "SELECT owner, table_name, column_name, data_type, data_length, nullable, column_id FROM all_tab_columns WHERE ",
            " ORDER BY owner, table_name, column_id",
        ),
        OracleOperation::Query => {
            return ("SELECT 1 FROM dual".to_owned(), binds);
        },
    };
    let mut sql = head.to_owned();
    sql.append(owner_pred);
    if let Some(table) = &filters.table {
        binds.push(OracleBind::Str(table.clone()));
        sql.append(" AND table_name = :tbl");
    } else {
        proof {
            reveal_strlit("");
            assert(sql@ + ""@ =~= sql@);
        }
    }
    sql.append(tail);
    assert(bind_views(binds@) =~= filter_bind(owner_view) + filter_bind(table_view));
    (sql, binds)
}

/// The columns of a `list_tables` result; Oracle reports unquoted names in
/// upper case.
pub const LIST_TABLES_COLUMNS: [&'static str; 3] = ["OWNER", "TABLE_NAME", "TABLESPACE_NAME"];

/// The columns of a `list_columns` result.
pub const LIST_COLUMNS_COLUMNS: [&'static str; 7] = [
    "OWNER",
    "TABLE_NAME",
    "COLUMN_NAME",
    "DATA_TYPE",
    "DATA_LENGTH",
    "NULLABLE",
    "COLUMN_ID",
];

/// The columns that an operation's result has; a plain query's are not known.
pub open spec fn result_columns(operation: OracleOperation) -> Seq<Seq<char>> {
    match operation {
        OracleOperation::ListTables => seq!["OWNER"@, "TABLE_NAME"@, "TABLESPACE_NAME"@],
        OracleOperation::ListColumns => seq![
            "OWNER"@,
            "TABLE_NAME"@,
            "COLUMN_NAME"@,
            "DATA_TYPE"@,
            "DATA_LENGTH"@,
            "NULLABLE"@,
            "COLUMN_ID"@,
        ],
        OracleOperation::Query => seq![],
    }
}

// ----------------------------------------------------------------------- laws

/// The statement text does not depend on what the filters hold, only on which
/// of them are there: no value of a caller can alter the query.
pub proof fn lemma_sql_ignores_filter_values(
    operation: OracleOperation,
    f: CatalogFilters,
    g: CatalogFilters,
)
    requires
        f.owner is Some <==> g.owner is Some,
        f.table is Some <==> g.table is Some,
    ensures
        catalog_sql(operation, f.owner.deep_view(), f.table.deep_view()) == catalog_sql(
            operation,
            g.owner.deep_view(),
            g.table.deep_view(),
        ),
{
}

/// A filter that the caller supplies wins over the static one, whatever that
/// is; where the caller supplies none, the static one is used.
pub proof fn lemma_argument_overrides_static(
    static_value: Option<Seq<char>>,
    arg_name: Option<Seq<char>>,
    arguments: JsonView,
)
    ensures
        non_empty(supplied(arg_name, arguments)) is Some ==> resolved_one(
            static_value,
            arg_name,
            arguments,
        ) == supplied(arg_name, arguments),
        non_empty(supplied(arg_name, arguments)) is None ==> resolved_one(
            static_value,
            arg_name,
            arguments,
        ) == non_empty(static_value),
{
}

/// How many placeholders a statement text has: each begins with a colon.
pub open spec fn placeholders(sql: Seq<char>) -> nat
    decreases sql.len(),
{
    if sql.len() == 0 {
        0
    } else {
        placeholders(sql.drop_last()) + (if sql.last() == ':' {
            1nat
        } else {
            0nat
        })
    }
}

proof fn lemma_placeholders_joined(a: Seq<char>, b: Seq<char>)
    ensures
        placeholders(a + b) == placeholders(a) + placeholders(b),
    decreases b.len(),
{
    if b.len() == 0 {
        assert(a + b =~= a);
    } else {
        lemma_placeholders_joined(a, b.drop_last());
        assert((a + b).drop_last() =~= a + b.drop_last());
    }
}

proof fn lemma_no_placeholders(s: Seq<char>)
    requires
        forall|i: int| 0 <= i < s.len() ==> #[trigger] s[i] != ':',
    ensures
        placeholders(s) == 0,
    decreases s.len(),
{
    if s.len() > 0 {
        assert forall|i: int| 0 <= i < s.drop_last().len() implies #[trigger] s.drop_last()[i]
            != ':' by {
            assert(s.drop_last()[i] == s[i]);
        }
        assert(s[s.len() - 1] != ':');
        lemma_no_placeholders(s.drop_last());
    }
}

/// A catalog statement has as many placeholders as binds.
pub proof fn lemma_placeholders_match_binds(
    operation: OracleOperation,
    owner: Option<Seq<char>>,
    table: Option<Seq<char>>,
)
    requires
        operation.catalog(),
    ensures
        placeholders(catalog_sql(operation, owner, table)) == catalog_binds(
            operation,
            owner,
            table,
        ).len(),
{
    let head = select_head(operation);
    let own = owner_predicate(owner);
    let tbl = table_predicate(table);
    let tail = order_tail(operation);
    lemma_placeholders_joined(head + own + tbl, tail);
    lemma_placeholders_joined(head + own, tbl);
    lemma_placeholders_joined(head, own);
    assert(placeholders(head) == 0) by {
        reveal_strlit(
            "SELECT owner, table_name, column_name, data_type, data_length, nullable, column_id FROM all_tab_columns WHERE ",
        );
        reveal_strlit("SELECT owner, table_name, tablespace_name FROM all_tables WHERE ");
        lemma_no_placeholders(head);
    }
    assert(placeholders(tail) == 0) by {
        reveal_strlit(" ORDER BY owner, table_name, column_id");
        reveal_strlit(" ORDER BY owner, table_name");
        lemma_no_placeholders(tail);
    }
    assert(placeholders(own) == filter_bind(owner).len()) by {
        reveal_strlit("owner = :owner");
        reveal_strlit("owner = USER");
        match owner {
            Some(_) => {
                let a = own.subrange(0, 8);
                let b = own.subrange(9, own.len() as int);
                lemma_no_placeholders(a);
                lemma_no_placeholders(b);
                assert(own =~= a.push(':') + b);
                assert(a.push(':').drop_last() =~= a);
                lemma_placeholders_joined(a.push(':'), b);
            },
            None => {
                lemma_no_placeholders(own);
            },
        }
    }
    assert(placeholders(tbl) == filter_bind(table).len()) by {
        reveal_strlit(" AND table_name = :tbl");
        reveal_strlit("");
        match table {
            Some(_) => {
                let a = tbl.subrange(0, 18);
                let b = tbl.subrange(19, tbl.len() as int);
                lemma_no_placeholders(a);
                lemma_no_placeholders(b);
                assert(tbl =~= a.push(':') + b);
                assert(a.push(':').drop_last() =~= a);
                lemma_placeholders_joined(a.push(':'), b);
            },
            None => {
                lemma_no_placeholders(tbl);
            },
        }
    }
}

/// The names, with a comma and a blank between them.
pub open spec fn listed(names: Seq<Seq<char>>) -> Seq<char>
    decreases names.len(),
{
    if names.len() == 0 {
        Seq::empty()
    } else if names.len() == 1 {
        names[0]
    } else {
        listed(names.drop_last()) + ", "@ + names.last()
    }
}

/// What a catalog statement selects from.
pub open spec fn from_clause(operation: OracleOperation) -> Seq<char> {
    match operation {
        OracleOperation::ListColumns => " FROM all_tab_columns WHERE "@,
        _ => " FROM all_tables WHERE "@,
    }
}

/// The columns that a catalog result is said to have are the columns that the
/// statement selects, in upper case and in the same order.
pub proof fn lemma_columns_match_select_list(operation: OracleOperation)
    requires
        operation.catalog(),
    ensures
        select_head(operation) == "SELECT "@ + lower(listed(result_columns(operation)))
            + from_clause(operation),
{
    let cols = result_columns(operation);
    reveal_strlit("SELECT ");
    reveal_strlit(", ");
    reveal_strlit("OWNER");
    reveal_strlit("TABLE_NAME");
    reveal_strlit("TABLESPACE_NAME");
    reveal_strlit("COLUMN_NAME");
    reveal_strlit("DATA_TYPE");
    reveal_strlit("DATA_LENGTH");
    reveal_strlit("NULLABLE");
    reveal_strlit("COLUMN_ID");
    reveal_strlit(" FROM all_tables WHERE ");
    reveal_strlit(" FROM all_tab_columns WHERE ");
    reveal_strlit("SELECT owner, table_name, tablespace_name FROM all_tables WHERE ");
    reveal_strlit(
        "SELECT owner, table_name, column_name, data_type, data_length, nullable, column_id FROM all_tab_columns WHERE ",
    );
    let two = "OWNER"@ + ", "@ + "TABLE_NAME"@;
    assert(listed(cols.take(1)) =~= "OWNER"@);
    assert(cols.take(2).drop_last() =~= cols.take(1));
    assert(listed(cols.take(2)) == two);
    assert(cols.take(3).drop_last() =~= cols.take(2));
    if operation == OracleOperation::ListTables {
        assert(cols.take(3) =~= cols);
        assert(listed(cols) == two + ", "@ + "TABLESPACE_NAME"@);
        assert(select_head(operation) =~= "SELECT "@ + lower(listed(cols)) + from_clause(
            operation,
        ));
    } else {
        let three = two + ", "@ + "COLUMN_NAME"@;
        assert(listed(cols.take(3)) == three);
        let four = three + ", "@ + "DATA_TYPE"@;
        assert(cols.take(4).drop_last() =~= cols.take(3));
        assert(listed(cols.take(4)) == four);
        let five = four + ", "@ + "DATA_LENGTH"@;
        assert(cols.take(5).drop_last() =~= cols.take(4));
        assert(listed(cols.take(5)) == five);
        let six = five + ", "@ + "NULLABLE"@;
        assert(cols.take(6).drop_last() =~= cols.take(5));
        assert(listed(cols.take(6)) == six);
        let seven = six + ", "@ + "COLUMN_ID"@;
        assert(cols.take(7) =~= cols);
        assert(cols.take(7).drop_last() =~= cols.take(6));
        assert(listed(cols) == seven);
        assert(select_head(operation) =~= "SELECT "@ + lower(seven) + from_clause(operation));
    }
}

} // verus!
