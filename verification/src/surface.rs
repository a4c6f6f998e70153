//! MCP surfaces: how the rows of a binding are shaped for tools, resources and
//! prompts.
//!
//! A tool keeps the result envelope. A `resources/read` is answered with
//! `{contents:[…]}` and a `prompts/get` with `{messages:[…]}`, each holding the
//! rows as JSON text.

use vstd::prelude::*;
use vstd::string::*;
use vstd::utf8::*;

use crate::codec::{
    json_parse, json_text, lemma_array_writable, lemma_object_writable, lemma_writable_deeper,
    nests_within, read_ok, representable, writable,
};
use crate::json::{copied, distinct_keys, entry, entry_views, views, Json, JsonView};
use crate::laws::answers::{lemma_prompt_body_holds_the_text, lemma_resource_body_holds_the_text};
use crate::text::{
    blank, decimal, decimal_int, is_blank, lemma_decimal_reads_back, push_i128, u64_text, u64_value,
};
use crate::types::{ListQueryConfig, ListQueryMode};

verus! {

/// Which MCP surface a binding serves.
#[derive(Debug, Clone, Copy, PartialEq, Eq, Structural)]
pub enum Surface {
    /// The result envelope as it is.
    Tool,
    /// `resources/read`: `{contents:[{uri,text,mimeType}]}`.
    Resource,
    /// `prompts/get`: `{messages:[{role,content}]}`.
    Prompt,
}

impl Default for Surface {
    fn default() -> (r: Self)
        ensures
            r == Surface::Tool,
    {
        Surface::Tool
    }
}

impl Surface {
    /// The word that stands for the surface in configuration and diagnostics.
    pub open spec fn word(self) -> Seq<char> {
        match self {
            Surface::Tool => "tool"@,
            Surface::Resource => "resource"@,
            Surface::Prompt => "prompt"@,
        }
    }

    /// Stable label for diagnostics.
    pub fn as_str(self) -> (r: &'static str)
        ensures
            r@ == self.word(),
    {
        match self {
            Surface::Tool => "tool",
            Surface::Resource => "resource",
            Surface::Prompt => "prompt",
        }
    }
}

// ------------------------------------------------------------------- listings

/// A resource in a listing.
#[derive(Debug, PartialEq)]
pub struct ListedResource {
    pub uri: String,
    pub name: Option<String>,
    pub description: Option<String>,
    pub mime_type: Option<String>,
}

/// The mathematical value of a [`ListedResource`].
pub struct ResourceView {
    pub uri: Seq<char>,
    pub name: Option<Seq<char>>,
    pub description: Option<Seq<char>>,
    pub mime_type: Option<Seq<char>>,
}

impl ListedResource {
    pub open spec fn view(&self) -> ResourceView {
        ResourceView {
            uri: self.uri@,
            name: self.name.deep_view(),
            description: self.description.deep_view(),
            mime_type: self.mime_type.deep_view(),
        }
    }
}

/// The values of a list of resources.
pub open spec fn resource_views(resources: Seq<ListedResource>) -> Seq<ResourceView> {
    Seq::new(resources.len(), |i: int| resources[i]@)
}

/// One page of a listing, with the cursor of the next page if there is one.
#[derive(Debug, PartialEq)]
pub struct ResourcePage {
    pub resources: Vec<ListedResource>,
    pub next_cursor: Option<String>,
}

impl ResourcePage {
    /// The page of a binding that lists nothing.
    pub fn empty() -> (r: Self)
        ensures
            r.resources@.len() == 0,
            r.next_cursor is None,
    {
        ResourcePage { resources: Vec::new(), next_cursor: None }
    }
}

/// The resource that a row lists; a row without a `uri` text lists none.
pub open spec fn listed_resource(row: JsonView) -> Option<ResourceView> {
    match row.text_field("uri"@) {
        Some(uri) => Some(
            (ResourceView {
                uri,
                name: row.text_field("name"@),
                description: row.text_field("description"@),
                mime_type: row.text_field("mime_type"@),
            }),
        ),
        None => None,
    }
}

/// The resources that rows list, in order.
pub open spec fn listed_resources(rows: Seq<JsonView>) -> Seq<ResourceView>
    decreases rows.len(),
{
    if rows.len() == 0 {
        Seq::empty()
    } else {
        let before = listed_resources(rows.drop_last());
        match listed_resource(rows.last()) {
            Some(resource) => before.push(resource),
            None => before,
        }
    }
}

/// A cursor value as text: a text is itself, a scalar its literal, null is
/// empty, and anything else is its JSON text.
pub open spec fn cursor_text(v: JsonView) -> Seq<char> {
    match v {
        JsonView::Text(t) => t,
        JsonView::Integer(i) => decimal_int(i),
        JsonView::Decimal(t) => t,
        JsonView::Bool(b) => if b {
            "true"@
        } else {
            "false"@
        },
        JsonView::Null => ""@,
        _ => if representable(v) {
            json_text(v)
        } else {
            ""@
        },
    }
}

/// The cursor that a row yields: a row that lists a resource yields the value
/// of its cursor column, if it has that column.
pub open spec fn row_cursor(row: JsonView, column: Option<Seq<char>>) -> Option<Seq<char>> {
    match (listed_resource(row), column) {
        (Some(_), Some(c)) => match row.field(c) {
            Some(v) => Some(cursor_text(v)),
            None => None,
        },
        _ => None,
    }
}

/// The cursor of the last row that yields one.
pub open spec fn last_cursor(rows: Seq<JsonView>, column: Option<Seq<char>>) -> Option<Seq<char>>
    decreases rows.len(),
{
    if rows.len() == 0 {
        None
    } else {
        match row_cursor(rows.last(), column) {
            Some(c) => Some(c),
            None => last_cursor(rows.drop_last(), column),
        }
    }
}

/// The cursor of the page after these rows. A page with fewer rows than asked
/// for is the last one.
pub open spec fn next_cursor(
    rows: Seq<JsonView>,
    mode: ListQueryMode,
    column: Option<Seq<char>>,
    page_size: nat,
    prior_offset: nat,
) -> Option<Seq<char>> {
    if rows.len() < page_size {
        None
    } else {
        match mode {
            ListQueryMode::Keyset => last_cursor(rows, column),
            ListQueryMode::Offset => Some(decimal(prior_offset + rows.len())),
        }
    }
}

/// Render a cursor value as text.
pub fn cursor_value_to_string(v: &Json) -> (r: String)
    ensures
        r@ == cursor_text(v@),
{
    broadcast use Json::lemma_view;

    match v {
        Json::Text(t) => t.clone(),
        Json::Integer(i) => {
            let mut out = String::new();
            push_i128(&mut out, *i);
            assert(out@ =~= decimal_int(*i as int));
            out
        },
        Json::Decimal(t) => t.clone(),
        Json::Bool(b) => if *b {
            "true".to_owned()
        } else {
            "false".to_owned()
        },
        Json::Null => "".to_owned(),
        _ => match v.to_text() {
            Some(t) => t,
            None => "".to_owned(),
        },
    }
}

fn owned_text(t: Option<&str>) -> (r: Option<String>)
    ensures
        r.deep_view() == t.deep_view(),
{
    match t {
        Some(t) => Some(t.to_owned()),
        None => None,
    }
}

fn row_to_resource(row: &Json) -> (r: Option<ListedResource>)
    ensures
        match r {
            Some(resource) => listed_resource(row@) == Some(resource@),
            None => listed_resource(row@) is None,
        },
{
    match row.get_text("uri") {
        Some(uri) => Some(
            ListedResource {
                uri: uri.to_owned(),
                name: owned_text(row.get_text("name")),
                description: owned_text(row.get_text("description")),
                mime_type: owned_text(row.get_text("mime_type")),
            },
        ),
        None => None,
    }
}

/// Project the rows of a listing to a page. Rows without a `uri` are skipped.
pub fn rows_to_resource_page(rows: &[Json], cfg: &ListQueryConfig, prior_offset: u64) -> (r:
    ResourcePage)
    requires
        cfg.mode == ListQueryMode::Offset && rows@.len() >= cfg.page_size ==> prior_offset
            + rows@.len() <= u64::MAX,
    ensures
        resource_views(r.resources@) == listed_resources(views(rows@)),
        r.next_cursor.deep_view() == next_cursor(
            views(rows@),
            cfg.mode,
            cfg.cursor_column.deep_view(),
            cfg.page_size as nat,
            prior_offset as nat,
        ),
{
    let ghost all = views(rows@);
    let ghost column = cfg.cursor_column.deep_view();
    let row_count: u64 = rows.len() as u64;
    let mut resources: Vec<ListedResource> = Vec::new();
    let mut last_cursor_value: Option<String> = None;
    let mut i: usize = 0;
    assert(resource_views(resources@) =~= Seq::<ResourceView>::empty());
    while i < rows.len()
        invariant
            all == views(rows@),
            column == cfg.cursor_column.deep_view(),
            i <= rows@.len(),
            resource_views(resources@) == listed_resources(all.take(i as int)),
            last_cursor_value.deep_view() == last_cursor(all.take(i as int), column),
        decreases rows.len() - i,
    {
        let row = &rows[i];
        assert(all.take(i + 1).drop_last() =~= all.take(i as int));
        assert(all.take(i + 1).last() == row@);
        let ghost before = resource_views(resources@);
        if let Some(resource) = row_to_resource(row) {
            resources.push(resource);
            assert(resource_views(resources@) =~= before.push(resource@));
            if let Some(col) = &cfg.cursor_column {
                if let Some(v) = row.get(col.as_str()) {
                    last_cursor_value = Some(cursor_value_to_string(v));
                }
            }
        }
        i += 1;
    }
    assert(all.take(i as int) =~= all);
    let next = if row_count < cfg.page_size {
        None
    } else {
        match cfg.mode {
            ListQueryMode::Keyset => last_cursor_value,
            ListQueryMode::Offset => Some(u64_text(prior_offset + row_count)),
        }
    };
    ResourcePage { resources, next_cursor: next }
}

// ----------------------------------------------------------------- completion

/// The candidate that a row holds: the text in the given column.
pub open spec fn candidate(row: JsonView, column: Option<Seq<char>>) -> Option<Seq<char>> {
    match column {
        Some(c) => row.text_field(c),
        None => None,
    }
}

/// The candidates of rows, in order; a row without one is skipped.
pub open spec fn candidates(rows: Seq<JsonView>, column: Option<Seq<char>>) -> Seq<Seq<char>>
    decreases rows.len(),
{
    if rows.len() == 0 {
        Seq::empty()
    } else {
        let before = candidates(rows.drop_last(), column);
        match candidate(rows.last(), column) {
            Some(t) => before.push(t),
            None => before,
        }
    }
}

/// The first rows, `max` at most.
pub open spec fn capped(rows: Seq<JsonView>, max: nat) -> Seq<JsonView> {
    if rows.len() <= max {
        rows
    } else {
        rows.take(max as int)
    }
}

/// Take the completion candidates from the first `max` rows: the text in the
/// first column. Cells that hold no text are skipped.
pub fn rows_to_completion_values(rows: &[Json], first_column: Option<&str>, max: usize) -> (r: Vec<
    String,
>)
    ensures
        r.deep_view() == candidates(capped(views(rows@), max as nat), first_column.deep_view()),
{
    let ghost all = views(rows@);
    let ghost column = first_column.deep_view();
    let mut out: Vec<String> = Vec::new();
    let mut i: usize = 0;
    assert(out.deep_view() =~= Seq::<Seq<char>>::empty());
    while i < rows.len() && i < max
        invariant
            all == views(rows@),
            column == first_column.deep_view(),
            i <= rows@.len(),
            i <= max,
            out.deep_view() == candidates(all.take(i as int), column),
        decreases rows.len() - i,
    {
        let row = &rows[i];
        assert(all.take(i + 1).drop_last() =~= all.take(i as int));
        assert(all.take(i + 1).last() == row@);
        let ghost before = out.deep_view();
        if let Some(col) = first_column {
            if let Some(t) = row.get_text(col) {
                out.push(t.to_owned());
                assert(out.deep_view() =~= before.push(t@));
            }
        }
        i += 1;
    }
    assert(all.take(i as int) =~= capped(all, max as nat));
    out
}

// ----------------------------------------------------------------------- bodies

/// A text that is there and not blank.
pub open spec fn not_blank(t: Option<Seq<char>>) -> Option<Seq<char>> {
    match t {
        Some(t) => if blank(t) {
            None
        } else {
            Some(t)
        },
        None => None,
    }
}

/// The URI of a resource read: the binding's own, else the one in the call's
/// arguments.
pub open spec fn resource_uri(static_uri: Option<Seq<char>>, arguments: JsonView) -> Option<
    Seq<char>,
> {
    match not_blank(static_uri) {
        Some(u) => Some(u),
        None => not_blank(arguments.text_field("uri"@)),
    }
}

/// Resolve the URI of a resource read. A static URI wins; a blank one counts
/// as none.
pub fn resolve_resource_uri<'a>(static_uri: Option<&'a str>, arguments: &'a Json) -> (r: Option<
    &'a str,
>)
    ensures
        r.deep_view() == resource_uri(static_uri.deep_view(), arguments@),
{
    if let Some(u) = static_uri {
        if !is_blank(u) {
            return Some(u);
        }
    }
    match arguments.get_text("uri") {
        Some(u) => if is_blank(u) {
            None
        } else {
            Some(u)
        },
        None => None,
    }
}

/// The rows as JSON text; rows that cannot be written count as none.
pub open spec fn rows_text(rows: Seq<JsonView>) -> Seq<char> {
    if representable(JsonView::Array(rows)) {
        json_text(JsonView::Array(rows))
    } else {
        "[]"@
    }
}

/// The text reads back as the rows. Rows that JSON cannot hold, or that nest
/// deeper than the reader goes, are left out.
pub open spec fn reads_back(text: Seq<char>, rows: Seq<JsonView>) -> bool {
    representable(JsonView::Array(rows)) && nests_within(JsonView::Array(rows), 127)
        ==> json_parse(encode_utf8(text)) == read_ok(JsonView::Array(rows))
}

fn write_rows(rows: &[Json]) -> (r: String)
    ensures
        r@ == rows_text(views(rows@)),
        reads_back(rows_text(views(rows@)), views(rows@)),
{
    broadcast use Json::lemma_view;

    let all = Json::Array(copied(rows));
    assert(all@ == JsonView::Array(views(rows@)));
    match all.to_text() {
        Some(t) => t,
        None => "[]".to_owned(),
    }
}

/// The body of a resource read.
pub open spec fn resource_body(uri: Seq<char>, text: Seq<char>) -> JsonView {
    JsonView::Object(
        seq![
            (
                "contents"@,
                JsonView::Array(
                    seq![
                        JsonView::Object(
                            seq![
                                ("uri"@, JsonView::Text(uri)),
                                ("text"@, JsonView::Text(text)),
                                ("mimeType"@, JsonView::Text("application/json"@)),
                            ],
                        ),
                    ],
                ),
            ),
        ],
    )
}

/// Wrap rows as the body of a `resources/read`: one content whose text is the
/// JSON array of the rows. The text reads back as the rows.
pub fn resource_contents_body(uri: &str, rows: &[Json]) -> (r: Json)
    ensures
        r@ == resource_body(uri@, rows_text(views(rows@))),
        reads_back(rows_text(views(rows@)), views(rows@)),
        r@.field("contents"@) matches Some(JsonView::Array(contents)) && contents.len() == 1 && (
        contents[0].field("text"@) matches Some(JsonView::Text(found)) && (representable(
            JsonView::Array(views(rows@)),
        ) && nests_within(JsonView::Array(views(rows@)), 127) ==> json_parse(encode_utf8(found))
            == read_ok(JsonView::Array(views(rows@))))),
{
    broadcast use Json::lemma_view;

    proof {
        lemma_resource_body_holds_the_text(uri@, rows_text(views(rows@)));
    }
    let ghost spec = resource_body(uri@, rows_text(views(rows@)))->Object_0;
    let ghost contents_spec = spec[0].1->Array_0;
    let content = vec![
        entry("uri", Json::text(uri)),
        entry("text", Json::Text(write_rows(rows))),
        entry("mimeType", Json::text("application/json")),
    ];
    assert(entry_views(content@) =~= contents_spec[0]->Object_0);
    let contents = vec![Json::Object(content)];
    assert(views(contents@) =~= contents_spec);
    let entries = vec![entry("contents", Json::Array(contents))];
    assert(entry_views(entries@) =~= spec);
    Json::Object(entries)
}

/// The body of a prompt.
pub open spec fn prompt_body(text: Seq<char>) -> JsonView {
    JsonView::Object(
        seq![
            (
                "messages"@,
                JsonView::Array(
                    seq![
                        JsonView::Object(
                            seq![
                                ("role"@, JsonView::Text("user"@)),
                                (
                                    "content"@,
                                    JsonView::Object(
                                        seq![
                                            ("type"@, JsonView::Text("text"@)),
                                            ("text"@, JsonView::Text(text)),
                                        ],
                                    ),
                                ),
                            ],
                        ),
                    ],
                ),
            ),
        ],
    )
}

/// Wrap rows as the body of a `prompts/get`: one message of the user whose text
/// is the JSON array of the rows. The text reads back as the rows.
pub fn prompt_messages_body(rows: &[Json]) -> (r: Json)
    ensures
        r@ == prompt_body(rows_text(views(rows@))),
        reads_back(rows_text(views(rows@)), views(rows@)),
        r@.field("messages"@) matches Some(JsonView::Array(messages)) && messages.len() == 1 && (
        messages[0].field("content"@) matches Some(content) && (content.field("text"@) matches Some(
            JsonView::Text(found),
        ) && (representable(JsonView::Array(views(rows@))) && nests_within(
            JsonView::Array(views(rows@)),
            127,
        ) ==> json_parse(encode_utf8(found)) == read_ok(JsonView::Array(views(rows@)))))),
{
    broadcast use Json::lemma_view;

    proof {
        lemma_prompt_body_holds_the_text(rows_text(views(rows@)));
    }
    let ghost spec = prompt_body(rows_text(views(rows@)))->Object_0;
    let ghost messages_spec = spec[0].1->Array_0;
    let ghost message_spec = messages_spec[0]->Object_0;
    let content = vec![
        entry("type", Json::text("text")),
        entry("text", Json::Text(write_rows(rows))),
    ];
    assert(entry_views(content@) =~= message_spec[1].1->Object_0);
    let message = vec![
        entry("role", Json::text("user")),
        entry("content", Json::Object(content)),
    ];
    assert(entry_views(message@) =~= message_spec);
    let messages = vec![Json::Object(message)];
    assert(views(messages@) =~= messages_spec);
    let entries = vec![entry("messages", Json::Array(messages))];
    assert(entry_views(entries@) =~= spec);
    Json::Object(entries)
}

// ----------------------------------------------------------------------- laws

/// A page lists at most one resource for a row.
pub proof fn lemma_page_no_longer_than_rows(rows: Seq<JsonView>)
    ensures
        listed_resources(rows).len() <= rows.len(),
    decreases rows.len(),
{
    if rows.len() > 0 {
        lemma_page_no_longer_than_rows(rows.drop_last());
    }
}

/// A row without a `uri` text adds nothing to the listing, wherever it stands.
pub proof fn lemma_row_without_uri_is_skipped(a: Seq<JsonView>, row: JsonView, b: Seq<JsonView>)
    requires
        row.text_field("uri"@) is None,
    ensures
        listed_resources(a.push(row) + b) == listed_resources(a + b),
    decreases b.len(),
{
    if b.len() == 0 {
        assert(a.push(row) + b =~= a.push(row));
        assert(a + b =~= a);
        assert(a.push(row).drop_last() =~= a);
    } else {
        lemma_row_without_uri_is_skipped(a, row, b.drop_last());
        assert((a.push(row) + b).drop_last() =~= a.push(row) + b.drop_last());
        assert((a + b).drop_last() =~= a + b.drop_last());
    }
}

/// A page with fewer rows than the page size ends the listing, in either mode.
pub proof fn lemma_short_page_ends_listing(
    rows: Seq<JsonView>,
    mode: ListQueryMode,
    column: Option<Seq<char>>,
    page_size: nat,
    prior_offset: nat,
)
    requires
        rows.len() < page_size,
    ensures
        next_cursor(rows, mode, column, page_size, prior_offset) is None,
{
}

/// In offset mode the cursor of a full page reads back as the offset of the
/// row after the page.
pub proof fn lemma_offset_cursor_reads_back(
    rows: Seq<JsonView>,
    column: Option<Seq<char>>,
    page_size: nat,
    prior_offset: u64,
)
    requires
        rows.len() >= page_size,
        prior_offset + rows.len() <= u64::MAX,
    ensures
        next_cursor(
            rows,
            ListQueryMode::Offset,
            column,
            page_size,
            prior_offset as nat,
        ) matches Some(c) && u64_value(c) == Some((prior_offset + rows.len()) as u64),
{
    lemma_decimal_reads_back((prior_offset + rows.len()) as u64);
}

/// In keyset mode the cursor of a full page whose last row lists a resource and
/// has the cursor column is that column's value.
pub proof fn lemma_keyset_cursor_is_last_row(
    rows: Seq<JsonView>,
    column: Seq<char>,
    page_size: nat,
    prior_offset: nat,
)
    requires
        0 < rows.len() >= page_size,
        rows.last().text_field("uri"@) is Some,
        rows.last().field(column) is Some,
    ensures
        next_cursor(rows, ListQueryMode::Keyset, Some(column), page_size, prior_offset) == Some(
            cursor_text(rows.last().field(column)->0),
        ),
{
}

/// There are never more candidates than the cap allows, and each of them is a
/// text in the column of one of the rows.
pub proof fn lemma_candidates_capped(rows: Seq<JsonView>, column: Option<Seq<char>>, max: nat)
    ensures
        candidates(capped(rows, max), column).len() <= max,
        forall|i: int|
            0 <= i < candidates(capped(rows, max), column).len() ==> exists|k: int|
                0 <= k < rows.len() && candidate(#[trigger] rows[k], column) == Some(
                    #[trigger] candidates(capped(rows, max), column)[i],
                ),
{
    let some = capped(rows, max);
    lemma_candidates_from_rows(some, column);
    assert forall|i: int| 0 <= i < candidates(some, column).len() implies exists|k: int|
        0 <= k < rows.len() && candidate(#[trigger] rows[k], column) == Some(
            #[trigger] candidates(some, column)[i],
        ) by {
        let k = choose|k: int|
            0 <= k < some.len() && candidate(#[trigger] some[k], column) == Some(
                candidates(some, column)[i],
            );
        assert(rows[k] == some[k]);
    }
}

proof fn lemma_candidates_from_rows(rows: Seq<JsonView>, column: Option<Seq<char>>)
    ensures
        candidates(rows, column).len() <= rows.len(),
        forall|i: int|
            0 <= i < candidates(rows, column).len() ==> exists|k: int|
                0 <= k < rows.len() && candidate(#[trigger] rows[k], column) == Some(
                    #[trigger] candidates(rows, column)[i],
                ),
    decreases rows.len(),
{
    if rows.len() > 0 {
        let init = rows.drop_last();
        lemma_candidates_from_rows(init, column);
        assert forall|i: int| 0 <= i < candidates(rows, column).len() implies exists|k: int|
            0 <= k < rows.len() && candidate(#[trigger] rows[k], column) == Some(
                #[trigger] candidates(rows, column)[i],
            ) by {
            if i < candidates(init, column).len() {
                let k = choose|k: int|
                    0 <= k < init.len() && candidate(#[trigger] init[k], column) == Some(
                        candidates(init, column)[i],
                    );
                assert(rows[k] == init[k]);
            } else {
                assert(candidate(rows[rows.len() - 1], column) == Some(
                    candidates(rows, column)[i],
                ));
            }
        }
    }
}

/// A static URI wins over the one in the arguments, whatever that is.
pub proof fn lemma_static_uri_wins(uri: Seq<char>, arguments: JsonView)
    requires
        !blank(uri),
    ensures
        resource_uri(Some(uri), arguments) == Some(uri),
{
}

/// The bodies of a resource read and of a prompt can be written as JSON text,
/// whatever the rows are.
pub proof fn lemma_bodies_are_writable(uri: Seq<char>, text: Seq<char>)
    ensures
        writable(resource_body(uri, text), 4),
        writable(prompt_body(text), 4),
{
    reveal_strlit("uri");
    reveal_strlit("text");
    reveal_strlit("mimeType");
    reveal_strlit("role");
    reveal_strlit("content");
    reveal_strlit("type");

    let body = resource_body(uri, text)->Object_0;
    let contents = body[0].1->Array_0;
    let entry = contents[0]->Object_0;
    assert(entry[0].0.len() == 3 && entry[1].0.len() == 4 && entry[2].0.len() == 8);
    assert(distinct_keys(entry));
    lemma_object_writable(entry, 0);
    lemma_array_writable(contents, 1);
    lemma_object_writable(body, 2);
    lemma_writable_deeper(resource_body(uri, text), 3, 4);

    let body = prompt_body(text)->Object_0;
    let messages = body[0].1->Array_0;
    let message = messages[0]->Object_0;
    let content = message[1].1->Object_0;
    assert(content[0].0[0] == 't' && content[0].0[1] == 'y' && content[1].0[1] == 'e');
    assert(distinct_keys(content));
    lemma_object_writable(content, 0);
    assert(message[0].0.len() == 4 && message[1].0.len() == 7);
    assert(distinct_keys(message));
    lemma_writable_deeper(message[0].1, 0, 1);
    assert forall|i: int| 0 <= i < message.len() implies writable((#[trigger] message[i]).1, 1) by {
        assert(i == 0 || i == 1);
    }
    lemma_object_writable(message, 1);
    lemma_array_writable(messages, 2);
    lemma_object_writable(body, 3);
}

} // verus!
