//! Listing resources, and completing template variables.

use vstd::prelude::*;

use crate::codec::{json_text, representable};
use crate::json::JsonView;
use crate::params::BindView;
use crate::resources::{
    completion_cap, completion_statement, first_column, listing_statement, offset_before,
};
use crate::surface::{
    candidates, capped, cursor_text, last_cursor, listed_resources, next_cursor,
};
use crate::text::{decimal, decimal_int, u64_value};
use crate::types::{CompletionConfig, ListQueryConfig, ListQueryMode, OracleOp};

verus! {

/// A row with a URI text adds exactly one resource to the listing, at the end,
/// with the URI, and with the name, the description and the MIME type where the
/// row has texts for them; a row without a URI text adds nothing.
pub proof fn lemma_row_adds_its_resource(rows: Seq<JsonView>, row: JsonView)
    ensures
        listed_resources(Seq::<JsonView>::empty()).len() == 0,
        row.field("uri"@) matches Some(JsonView::Text(_)) ==> {
            &&& listed_resources(rows.push(row)).len() == listed_resources(rows).len() + 1
            &&& listed_resources(rows.push(row)).drop_last() == listed_resources(rows)
            &&& ({
                let last = listed_resources(rows.push(row)).last();
                &&& row.field("uri"@) == Some(JsonView::Text(last.uri))
                &&& row.field("name"@) matches Some(JsonView::Text(t)) ==> last.name == Some(t)
                &&& !(row.field("name"@) matches Some(JsonView::Text(_))) ==> last.name is None
                &&& row.field("description"@) matches Some(JsonView::Text(t)) ==> last.description
                    == Some(t)
                &&& !(row.field("description"@) matches Some(JsonView::Text(_)))
                    ==> last.description is None
                &&& row.field("mime_type"@) matches Some(JsonView::Text(t)) ==> last.mime_type
                    == Some(t)
                &&& !(row.field("mime_type"@) matches Some(JsonView::Text(_))) ==> last.mime_type is None
            })
        },
        !(row.field("uri"@) matches Some(JsonView::Text(_))) ==> listed_resources(rows.push(row))
            == listed_resources(rows),
{
    assert(rows.push(row).drop_last() =~= rows);
    assert(rows.push(row).last() == row);
    if row.field("uri"@) matches Some(JsonView::Text(_)) {
        assert(listed_resources(rows.push(row)).drop_last() =~= listed_resources(rows));
    }
}

/// Nothing is lost: where every row has a URI text, the page has exactly one
/// resource for each row, in order, with the row's URI, name, description and MIME
/// type.
pub proof fn lemma_page_lists_every_row(rows: Seq<JsonView>)
    requires
        forall|i: int|
            0 <= i < rows.len() ==> (#[trigger] rows[i]).field("uri"@) matches Some(
                JsonView::Text(_),
            ),
    ensures
        listed_resources(rows).len() == rows.len(),
        forall|i: int|
            0 <= i < rows.len() ==> ({
                let r = #[trigger] listed_resources(rows)[i];
                &&& rows[i].field("uri"@) == Some(JsonView::Text(r.uri))
                &&& rows[i].field("name"@) matches Some(JsonView::Text(t)) ==> r.name == Some(t)
                &&& !(rows[i].field("name"@) matches Some(JsonView::Text(_))) ==> r.name is None
                &&& rows[i].field("description"@) matches Some(JsonView::Text(t)) ==> r.description
                    == Some(t)
                &&& !(rows[i].field("description"@) matches Some(JsonView::Text(_)))
                    ==> r.description is None
                &&& rows[i].field("mime_type"@) matches Some(JsonView::Text(t)) ==> r.mime_type
                    == Some(t)
                &&& !(rows[i].field("mime_type"@) matches Some(JsonView::Text(_)))
                    ==> r.mime_type is None
            }),
    decreases rows.len(),
{
    if rows.len() > 0 {
        let init = rows.drop_last();
        assert forall|i: int| 0 <= i < init.len() implies ((#[trigger] init[i]).field("uri"@) matches Some(
            JsonView::Text(_),
        )) by {
            assert(init[i] == rows[i]);
        }
        lemma_page_lists_every_row(init);
        lemma_row_adds_its_resource(init, rows.last());
        assert(init.push(rows.last()) =~= rows);
        assert(rows[rows.len() - 1].field("uri"@) matches Some(JsonView::Text(_)));
        assert forall|i: int| 0 <= i < rows.len() implies ({
            let r = #[trigger] listed_resources(rows)[i];
            &&& rows[i].field("uri"@) == Some(JsonView::Text(r.uri))
            &&& rows[i].field("name"@) matches Some(JsonView::Text(t)) ==> r.name == Some(t)
            &&& !(rows[i].field("name"@) matches Some(JsonView::Text(_))) ==> r.name is None
            &&& rows[i].field("description"@) matches Some(JsonView::Text(t)) ==> r.description
                == Some(t)
            &&& !(rows[i].field("description"@) matches Some(JsonView::Text(_)))
                ==> r.description is None
            &&& rows[i].field("mime_type"@) matches Some(JsonView::Text(t)) ==> r.mime_type
                == Some(t)
            &&& !(rows[i].field("mime_type"@) matches Some(JsonView::Text(_)))
                ==> r.mime_type is None
        }) by {
            if i < init.len() {
                assert(listed_resources(rows).drop_last()[i] == listed_resources(rows)[i]);
                assert(listed_resources(init)[i] == listed_resources(rows)[i]);
                assert(init[i] == rows[i]);
            }
        }
    }
}

/// Two listings one after the other list what the one lists, then what the other
/// lists.
pub proof fn lemma_listings_add_up(a: Seq<JsonView>, b: Seq<JsonView>)
    ensures
        listed_resources(a + b) == listed_resources(a) + listed_resources(b),
    decreases b.len(),
{
    if b.len() == 0 {
        assert(a + b =~= a);
        assert(listed_resources(a) + listed_resources(b) =~= listed_resources(a));
    } else {
        lemma_listings_add_up(a, b.drop_last());
        assert((a + b).drop_last() =~= a + b.drop_last());
        assert(listed_resources(a + b) =~= listed_resources(a) + listed_resources(b));
    }
}

/// A cursor value is rendered whole: a text as it is, a number as its numeral, a
/// truth value as its word, null as nothing, and an array or an object as its
/// JSON text.
pub proof fn lemma_cursor_is_the_value(v: JsonView)
    ensures
        v matches JsonView::Text(t) ==> cursor_text(v) == t,
        v matches JsonView::Integer(n) ==> cursor_text(v) == decimal_int(n),
        v matches JsonView::Decimal(t) ==> cursor_text(v) == t,
        v == JsonView::Bool(true) ==> cursor_text(v) == "true"@,
        v == JsonView::Bool(false) ==> cursor_text(v) == "false"@,
        v is Null ==> cursor_text(v).len() == 0,
        (v is Array || v is Object) && representable(v) ==> cursor_text(v) == json_text(v),
{
    reveal_strlit("");
}

/// In keyset mode a full page has the cursor of the last row that lists a
/// resource and has the cursor column; rows behind it that list nothing or lack
/// the column change nothing.
pub proof fn lemma_keyset_cursor(
    rows: Seq<JsonView>,
    column: Seq<char>,
    page_size: nat,
    prior_offset: nat,
    k: int,
)
    requires
        rows.len() >= page_size,
        0 <= k < rows.len(),
        rows[k].field("uri"@) matches Some(JsonView::Text(_)),
        rows[k].field(column) is Some,
        forall|i: int|
            k < i < rows.len() ==> !((#[trigger] rows[i]).field("uri"@) matches Some(
                JsonView::Text(_),
            )) || rows[i].field(column) is None,
    ensures
        next_cursor(rows, ListQueryMode::Keyset, Some(column), page_size, prior_offset) == Some(
            cursor_text(rows[k].field(column)->0),
        ),
{
    lemma_last_cursor(rows, column, k);
}

proof fn lemma_last_cursor(rows: Seq<JsonView>, column: Seq<char>, k: int)
    requires
        0 <= k < rows.len(),
        rows[k].field("uri"@) matches Some(JsonView::Text(_)),
        rows[k].field(column) is Some,
        forall|i: int|
            k < i < rows.len() ==> !((#[trigger] rows[i]).field("uri"@) matches Some(
                JsonView::Text(_),
            )) || rows[i].field(column) is None,
    ensures
        last_cursor(rows, Some(column)) == Some(
            cursor_text(rows[k].field(column)->0),
        ),
    decreases rows.len(),
{
    if k < rows.len() - 1 {
        let init = rows.drop_last();
        assert(rows.last() == rows[rows.len() - 1]);
        assert(init[k] == rows[k]);
        assert forall|i: int| k < i < init.len() implies (!((#[trigger] init[i]).field("uri"@) matches Some(
            JsonView::Text(_),
        )) || init[i].field(column) is None) by {
            assert(init[i] == rows[i]);
        }
        lemma_last_cursor(init, column, k);
    }
}

/// Where no row lists a resource and has the cursor column, a keyset listing
/// ends.
pub proof fn lemma_keyset_without_cursor_ends(
    rows: Seq<JsonView>,
    column: Option<Seq<char>>,
    page_size: nat,
    prior_offset: nat,
)
    requires
        forall|i: int|
            0 <= i < rows.len() ==> !((#[trigger] rows[i]).field("uri"@) matches Some(
                JsonView::Text(_),
            )) || column is None || rows[i].field(column->0) is None,
    ensures
        next_cursor(rows, ListQueryMode::Keyset, column, page_size, prior_offset) is None,
    decreases rows.len(),
{
    if rows.len() > 0 {
        let init = rows.drop_last();
        assert(rows.last() == rows[rows.len() - 1]);
        assert forall|i: int| 0 <= i < init.len() implies (!((#[trigger] init[i]).field("uri"@) matches Some(
            JsonView::Text(_),
        )) || column is None || init[i].field(column->0) is None) by {
            assert(init[i] == rows[i]);
        }
        lemma_keyset_without_cursor_ends(init, column, 0, prior_offset);
    }
}

/// A full page in offset mode has the number of rows up to its end as its
/// cursor, and a page that is not full has none, in either mode.
pub proof fn lemma_offset_cursor(
    rows: Seq<JsonView>,
    mode: ListQueryMode,
    column: Option<Seq<char>>,
    page_size: nat,
    prior_offset: nat,
)
    ensures
        rows.len() >= page_size && mode == ListQueryMode::Offset ==> next_cursor(
            rows,
            mode,
            column,
            page_size,
            prior_offset,
        ) == Some(decimal(prior_offset + rows.len())),
        rows.len() < page_size ==> next_cursor(rows, mode, column, page_size, prior_offset) is None,
{
}

/// A listing runs the operator's statement as a query, for one page of rows, and
/// passes the page size and the place to begin: in keyset mode the cursor first,
/// as text and whole, null on the first page; in offset mode the page size
/// first. The driver takes the offset as a signed number of 64 bits.
pub proof fn lemma_listing_binds_the_page(
    cfg: ListQueryConfig,
    cursor: Option<Seq<char>>,
    offset: nat,
)
    ensures
        ({
            let s = listing_statement(cfg, cursor, offset);
            &&& s.sql == cfg.sql@
            &&& s.op == OracleOp::Query
            &&& s.size_limit == cfg.page_size
            &&& s.binds.len() == 2
            &&& cfg.mode == ListQueryMode::Keyset ==> {
                &&& cursor matches Some(c) ==> s.binds[0] == BindView::Str(c)
                &&& cursor is None ==> s.binds[0] == BindView::Null
                &&& s.binds[1] == BindView::Int(cfg.page_size as int)
            }
            &&& cfg.mode == ListQueryMode::Offset ==> {
                &&& s.binds[0] == BindView::Int(cfg.page_size as int)
                &&& offset <= 0x7fff_ffff_ffff_ffff ==> s.binds[1] == BindView::Int(offset as int)
                &&& offset > 0x7fff_ffff_ffff_ffff ==> s.binds[1] == BindView::Int(
                    offset - 0x1_0000_0000_0000_0000,
                )
            }
        }),
{
}

/// A listing begins at the first row, unless it is in offset mode and has a
/// cursor: then it begins where the cursor says, and a cursor that is no number
/// is refused.
pub proof fn lemma_listing_begins(cursor: Option<Seq<char>>)
    ensures
        offset_before(ListQueryMode::Keyset, cursor) == Some(0u64),
        cursor is None ==> offset_before(ListQueryMode::Offset, cursor) == Some(0u64),
        cursor matches Some(c) ==> offset_before(ListQueryMode::Offset, cursor) == u64_value(c),
{
}

/// A completion runs the operator's statement as a query with the typed prefix as
/// its one bind, whole, and asks for no more candidates than it may return: as
/// many as the operator says, else a hundred.
pub proof fn lemma_completion_binds_the_prefix(cfg: CompletionConfig, prefix: Seq<char>)
    ensures
        ({
            let s = completion_statement(cfg, prefix);
            &&& s.sql == cfg.sql@
            &&& s.op == OracleOp::Query
            &&& s.binds.len() == 1
            &&& s.binds[0] == BindView::Str(prefix)
            &&& s.size_limit == completion_cap(cfg)
        }),
        cfg.max_results matches Some(n) ==> completion_cap(cfg) == n,
        cfg.max_results is None ==> completion_cap(cfg) == 100,
{
}

/// A row with a text in the column adds exactly that text to the candidates, at
/// the end; a row without one adds nothing.
pub proof fn lemma_row_adds_its_candidate(rows: Seq<JsonView>, row: JsonView, column: Seq<char>)
    ensures
        candidates(Seq::<JsonView>::empty(), Some(column)).len() == 0,
        row.field(column) matches Some(JsonView::Text(t)) ==> candidates(
            rows.push(row),
            Some(column),
        ) == candidates(rows, Some(column)).push(t),
        !(row.field(column) matches Some(JsonView::Text(_))) ==> candidates(
            rows.push(row),
            Some(column),
        ) == candidates(rows, Some(column)),
{
    assert(rows.push(row).drop_last() =~= rows);
    assert(rows.push(row).last() == row);
}

/// Nothing is lost up to the cap: where every row has a text in the first column,
/// the candidates are these texts, in order, of as many rows as the cap allows.
pub proof fn lemma_candidates_are_the_first_column(
    rows: Seq<JsonView>,
    column: Seq<char>,
    max: nat,
)
    requires
        forall|i: int|
            0 <= i < rows.len() ==> (#[trigger] rows[i]).field(column) matches Some(
                JsonView::Text(_),
            ),
    ensures
        candidates(capped(rows, max), Some(column)).len() == (if rows.len() <= max {
            rows.len()
        } else {
            max
        }),
        forall|i: int|
            0 <= i < rows.len() && i < max ==> (#[trigger] rows[i]).field(column) == Some(
                JsonView::Text(candidates(capped(rows, max), Some(column))[i]),
            ),
{
    let some = capped(rows, max);
    assert forall|i: int| 0 <= i < some.len() implies ((#[trigger] some[i]).field(column) matches Some(
        JsonView::Text(_),
    )) by {
        assert(some[i] == rows[i]);
    }
    lemma_all_candidates(some, column);
    assert forall|i: int| 0 <= i < rows.len() && i < max implies (#[trigger] rows[i]).field(column)
        == Some(JsonView::Text(candidates(some, Some(column))[i])) by {
        assert(some[i] == rows[i]);
    }
}

proof fn lemma_all_candidates(rows: Seq<JsonView>, column: Seq<char>)
    requires
        forall|i: int|
            0 <= i < rows.len() ==> (#[trigger] rows[i]).field(column) matches Some(
                JsonView::Text(_),
            ),
    ensures
        candidates(rows, Some(column)).len() == rows.len(),
        forall|i: int|
            0 <= i < rows.len() ==> (#[trigger] rows[i]).field(column) == Some(
                JsonView::Text(candidates(rows, Some(column))[i]),
            ),
    decreases rows.len(),
{
    if rows.len() > 0 {
        let init = rows.drop_last();
        assert forall|i: int| 0 <= i < init.len() implies ((#[trigger] init[i]).field(column) matches Some(
            JsonView::Text(_),
        )) by {
            assert(init[i] == rows[i]);
        }
        lemma_all_candidates(init, column);
        lemma_row_adds_its_candidate(init, rows.last(), column);
        assert(init.push(rows.last()) =~= rows);
        assert(rows[rows.len() - 1].field(column) matches Some(JsonView::Text(_)));
        assert forall|i: int| 0 <= i < rows.len() implies (#[trigger] rows[i]).field(column) == Some(
            JsonView::Text(candidates(rows, Some(column))[i]),
        ) by {
            if i < init.len() {
                assert(init[i] == rows[i]);
            }
        }
    }
}

/// The first column is the first key of the first row; there is none where the
/// first row has no entry.
pub proof fn lemma_first_column_of_first_row(
    entries: Seq<(Seq<char>, JsonView)>,
    rest: Seq<JsonView>,
)
    ensures
        entries.len() > 0 ==> first_column(seq![JsonView::Object(entries)] + rest) == Some(
            entries[0].0,
        ),
        entries.len() == 0 ==> first_column(seq![JsonView::Object(entries)] + rest) is None,
        first_column(Seq::<JsonView>::empty()) is None,
{
    let rows = seq![JsonView::Object(entries)] + rest;
    assert(rows[0] == JsonView::Object(entries));
}

} // verus!
