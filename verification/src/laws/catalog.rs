//! The statements of schema discovery.

use vstd::prelude::*;

use crate::catalog::{catalog_binds, catalog_sql, CatalogFilterConfig};
use crate::params::BindView;
use crate::types::OracleOperation;

verus! {

/// Filters narrow: the statement that lists tables selects by the owner, the
/// connected user's schema where none is given, and where a table is given by
/// that table too.
pub proof fn lemma_list_tables_statement(owner: Option<Seq<char>>, table: Option<Seq<char>>)
    ensures
        catalog_sql(OracleOperation::ListTables, owner, table) == (match (owner, table) {
            (None, None) =>
                "SELECT owner, table_name, tablespace_name FROM all_tables WHERE owner = USER ORDER BY owner, table_name"@,
            (Some(_), None) =>
                "SELECT owner, table_name, tablespace_name FROM all_tables WHERE owner = :owner ORDER BY owner, table_name"@,
            (None, Some(_)) =>
                "SELECT owner, table_name, tablespace_name FROM all_tables WHERE owner = USER AND table_name = :tbl ORDER BY owner, table_name"@,
            (Some(_), Some(_)) =>
                "SELECT owner, table_name, tablespace_name FROM all_tables WHERE owner = :owner AND table_name = :tbl ORDER BY owner, table_name"@,
        }),
{
    let text = catalog_sql(OracleOperation::ListTables, owner, table);
    reveal_strlit("SELECT owner, table_name, tablespace_name FROM all_tables WHERE ");
    reveal_strlit("owner = USER");
    reveal_strlit("owner = :owner");
    reveal_strlit(" AND table_name = :tbl");
    reveal_strlit("");
    reveal_strlit(" ORDER BY owner, table_name");
    match (owner, table) {
        (None, None) => {
            reveal_strlit(
                "SELECT owner, table_name, tablespace_name FROM all_tables WHERE owner = USER ORDER BY owner, table_name",
            );
            assert(text
                =~= "SELECT owner, table_name, tablespace_name FROM all_tables WHERE owner = USER ORDER BY owner, table_name"@);
        },
        (Some(_), None) => {
            reveal_strlit(
                "SELECT owner, table_name, tablespace_name FROM all_tables WHERE owner = :owner ORDER BY owner, table_name",
            );
            assert(text
                =~= "SELECT owner, table_name, tablespace_name FROM all_tables WHERE owner = :owner ORDER BY owner, table_name"@);
        },
        (None, Some(_)) => {
            reveal_strlit(
                "SELECT owner, table_name, tablespace_name FROM all_tables WHERE owner = USER AND table_name = :tbl ORDER BY owner, table_name",
            );
            assert(text
                =~= "SELECT owner, table_name, tablespace_name FROM all_tables WHERE owner = USER AND table_name = :tbl ORDER BY owner, table_name"@);
        },
        (Some(_), Some(_)) => {
            reveal_strlit(
                "SELECT owner, table_name, tablespace_name FROM all_tables WHERE owner = :owner AND table_name = :tbl ORDER BY owner, table_name",
            );
            assert(text
                =~= "SELECT owner, table_name, tablespace_name FROM all_tables WHERE owner = :owner AND table_name = :tbl ORDER BY owner, table_name"@);
        },
    }
}

/// Filters narrow: the statement that lists columns selects by the owner, the
/// connected user's schema where none is given, and where a table is given by
/// that table too.
pub proof fn lemma_list_columns_statement(owner: Option<Seq<char>>, table: Option<Seq<char>>)
    ensures
        catalog_sql(OracleOperation::ListColumns, owner, table) == (match (owner, table) {
            (None, None) =>
                "SELECT owner, table_name, column_name, data_type, data_length, nullable, column_id FROM all_tab_columns WHERE owner = USER ORDER BY owner, table_name, column_id"@,
            (Some(_), None) =>
                "SELECT owner, table_name, column_name, data_type, data_length, nullable, column_id FROM all_tab_columns WHERE owner = :owner ORDER BY owner, table_name, column_id"@,
            (None, Some(_)) =>
                "SELECT owner, table_name, column_name, data_type, data_length, nullable, column_id FROM all_tab_columns WHERE owner = USER AND table_name = :tbl ORDER BY owner, table_name, column_id"@,
            (Some(_), Some(_)) =>
                "SELECT owner, table_name, column_name, data_type, data_length, nullable, column_id FROM all_tab_columns WHERE owner = :owner AND table_name = :tbl ORDER BY owner, table_name, column_id"@,
        }),
{
    let text = catalog_sql(OracleOperation::ListColumns, owner, table);
    reveal_strlit(
        "SELECT owner, table_name, column_name, data_type, data_length, nullable, column_id FROM all_tab_columns WHERE ",
    );
    reveal_strlit("owner = USER");
    reveal_strlit("owner = :owner");
    reveal_strlit(" AND table_name = :tbl");
    reveal_strlit("");
    reveal_strlit(" ORDER BY owner, table_name, column_id");
    match (owner, table) {
        (None, None) => {
            reveal_strlit(
                "SELECT owner, table_name, column_name, data_type, data_length, nullable, column_id FROM all_tab_columns WHERE owner = USER ORDER BY owner, table_name, column_id",
            );
            assert(text
                =~= "SELECT owner, table_name, column_name, data_type, data_length, nullable, column_id FROM all_tab_columns WHERE owner = USER ORDER BY owner, table_name, column_id"@);
        },
        (Some(_), None) => {
            reveal_strlit(
                "SELECT owner, table_name, column_name, data_type, data_length, nullable, column_id FROM all_tab_columns WHERE owner = :owner ORDER BY owner, table_name, column_id",
            );
            assert(text
                =~= "SELECT owner, table_name, column_name, data_type, data_length, nullable, column_id FROM all_tab_columns WHERE owner = :owner ORDER BY owner, table_name, column_id"@);
        },
        (None, Some(_)) => {
            reveal_strlit(
                "SELECT owner, table_name, column_name, data_type, data_length, nullable, column_id FROM all_tab_columns WHERE owner = USER AND table_name = :tbl ORDER BY owner, table_name, column_id",
            );
            assert(text
                =~= "SELECT owner, table_name, column_name, data_type, data_length, nullable, column_id FROM all_tab_columns WHERE owner = USER AND table_name = :tbl ORDER BY owner, table_name, column_id"@);
        },
        (Some(_), Some(_)) => {
            reveal_strlit(
                "SELECT owner, table_name, column_name, data_type, data_length, nullable, column_id FROM all_tab_columns WHERE owner = :owner AND table_name = :tbl ORDER BY owner, table_name, column_id",
            );
            assert(text
                =~= "SELECT owner, table_name, column_name, data_type, data_length, nullable, column_id FROM all_tab_columns WHERE owner = :owner AND table_name = :tbl ORDER BY owner, table_name, column_id"@);
        },
    }
}

/// A catalog statement is given one bind for each filter that is there, the
/// owner's value first, then the table's, each whole.
pub proof fn lemma_catalog_statement_binds(
    operation: OracleOperation,
    owner: Option<Seq<char>>,
    table: Option<Seq<char>>,
)
    requires
        operation != OracleOperation::Query,
    ensures
        match (owner, table) {
            (Some(o), Some(t)) => catalog_binds(operation, owner, table) == seq![
                BindView::Str(o),
                BindView::Str(t),
            ],
            (Some(o), None) => catalog_binds(operation, owner, table) == seq![BindView::Str(o)],
            (None, Some(t)) => catalog_binds(operation, owner, table) == seq![BindView::Str(t)],
            (None, None) => catalog_binds(operation, owner, table).len() == 0,
        },
{
    let binds = catalog_binds(operation, owner, table);
    match (owner, table) {
        (Some(o), Some(t)) => {
            assert(binds =~= seq![BindView::Str(o), BindView::Str(t)]);
        },
        (Some(o), None) => {
            assert(binds =~= seq![BindView::Str(o)]);
        },
        (None, Some(t)) => {
            assert(binds =~= seq![BindView::Str(t)]);
        },
        (None, None) => {},
    }
}

/// The arguments of a catalog operation are those that its filters name, each
/// once, the owner's first.
pub proof fn lemma_filter_arguments(filters: CatalogFilterConfig, name: Seq<char>)
    ensures
        filters.names().no_duplicates(),
        filters.names().contains(name) <==> filters.owner_arg.deep_view() == Some(name)
            || filters.table_arg.deep_view() == Some(name),
        filters.owner_arg is Some ==> filters.names().len() > 0 && filters.names()[0]
            == filters.owner_arg->0@,
{
    let names = filters.names();
    if let Some(o) = filters.owner_arg {
        assert(names[0] == o@);
    }
    if let Some(t) = filters.table_arg {
        assert(names[names.len() - 1] == t@);
    }
}

} // verus!
