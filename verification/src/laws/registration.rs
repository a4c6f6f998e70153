//! What is accepted at registration, and what is kept of it.

use vstd::prelude::*;

use crate::params::sources;
use crate::plugin::{completions_fault, register_fault, stored_from, OracleProfile, Verdicts};
use crate::sql::{piece_at, piece_end, reached};
use crate::surface::Surface;
use crate::text::{
    begins_with, blank, contains_text, decimal, is_white, lemma_first_at, lemma_trimmed_unique,
    occurs_at, trimmed, trims_at,
};
use crate::types::{
    completion_fault, has_single_prefix_placeholder, list_query_fault, prefix_placeholder_at,
    safe_sql_identifier, word_char, CompletionConfig, ListQueryConfig, ListQueryMode,
    OracleBackendSpec, OracleOp, OracleOperation,
};
use crate::watch::{watch_fault, watches, WatchPlan, WatchSpec};

verus! {

/// A text is absent, or has nothing but white space in it.
pub open spec fn missing(t: Option<String>) -> bool {
    t is None || blank(t->0@)
}

/// A word of ASCII letters, digits and underscores that does not begin with a
/// digit.
pub open spec fn plain_identifier(s: Seq<char>) -> bool {
    &&& s.len() > 0
    &&& !('0' <= s[0] <= '9')
    &&& forall|i: int|
        0 <= i < s.len() ==> 'a' <= #[trigger] s[i] <= 'z' || 'A' <= s[i] <= 'Z' || '0' <= s[i]
            <= '9' || s[i] == '_'
}

/// A listing is accepted exactly where it has a statement, a page size from one
/// to a thousand, and in keyset mode a cursor column that is a plain identifier
/// once the white space round it is gone.
pub proof fn lemma_listing_is_checked(cfg: ListQueryConfig)
    ensures
        list_query_fault(cfg) is None <==> {
            &&& !blank(cfg.sql@)
            &&& 1 <= cfg.page_size <= 1000
            &&& cfg.mode == ListQueryMode::Keyset ==> cfg.cursor_column is Some
                && plain_identifier(trimmed(cfg.cursor_column->0@))
        },
        blank(cfg.sql@) ==> list_query_fault(cfg) == Some("list_query.sql must not be empty"@),
        !blank(cfg.sql@) && !(1 <= cfg.page_size <= 1000) ==> list_query_fault(cfg) == Some(
            "list_query.page_size ("@ + decimal(cfg.page_size as nat) + ") must be in 1..=1000"@,
        ),
        !blank(cfg.sql@) && 1 <= cfg.page_size <= 1000 && cfg.mode == ListQueryMode::Keyset && (
        cfg.cursor_column is None || trimmed(cfg.cursor_column->0@).len() == 0)
            ==> list_query_fault(cfg) == Some(
            "list_query.cursor_column is required for mode: keyset"@,
        ),
        !blank(cfg.sql@) && 1 <= cfg.page_size <= 1000 && cfg.mode == ListQueryMode::Keyset && (
        cfg.cursor_column matches Some(c) && trimmed(c@).len() > 0 && !plain_identifier(trimmed(c@)))
            ==> list_query_fault(cfg) == Some(
            "list_query.cursor_column '"@ + trimmed(cfg.cursor_column->0@)
                + "' is not a safe SQL identifier"@,
        ),
{
    if let Some(c) = cfg.cursor_column {
        let s = trimmed(c@);
        if plain_identifier(s) {
            assert('a' <= s[0] <= 'z' || 'A' <= s[0] <= 'Z' || s[0] == '_');
            assert(safe_sql_identifier(s)) by {
                assert forall|i: int| 0 <= i < s.len() implies word_char(
                    #[trigger] s[i],
                ) by {}
            }
        }
        if safe_sql_identifier(s) {
            assert forall|i: int| 0 <= i < s.len() implies ('a' <= #[trigger] s[i] <= 'z' || 'A'
                <= s[i] <= 'Z' || '0' <= s[i] <= '9' || s[i] == '_') by {
                assert(word_char(s[i]));
            }
        }
    }
}

/// Trimming takes the white space at both ends away, and nothing else.
pub proof fn lemma_trimming(a: Seq<char>, t: Seq<char>, b: Seq<char>)
    requires
        blank(a),
        blank(b),
        t.len() > 0 ==> !is_white(t[0]) && !is_white(t.last()),
    ensures
        trimmed(a + t + b) == t,
{
    let s = a + t + b;
    let i = a.len() as int;
    let j = (a.len() + t.len()) as int;
    assert(s.subrange(i, j) =~= t);
    assert(s.subrange(0, i) =~= a);
    assert(s.subrange(j, s.len() as int) =~= b);
    assert(trims_at(s, t, i, j));
    lemma_trimmed_unique(s, t);
}

/// The `:1` placeholder stands at position `i` of a statement: a colon and a one
/// outside quotes and comments, with no further digit behind.
pub open spec fn colon_one_at(sql: Seq<char>, i: int) -> bool {
    &&& piece_at(sql, i)
    &&& 0 <= i && i + 1 < sql.len()
    &&& sql[i] == ':' && sql[i + 1] == '1'
    &&& i + 2 < sql.len() ==> !('0' <= sql[i + 2] <= '9')
}

/// A completion is accepted exactly where it has a statement, and the statement
/// has the placeholder of the typed prefix at one place and no other.
pub proof fn lemma_completion_is_checked(name: Seq<char>, cfg: CompletionConfig)
    ensures
        completion_fault(name, cfg) is None <==> !blank(cfg.sql@) && exists|i: int| #[trigger]
            colon_one_at(cfg.sql@, i) && forall|j: int| #[trigger]
                colon_one_at(cfg.sql@, j) ==> j == i,
        blank(cfg.sql@) ==> completion_fault(name, cfg) == Some(
            "variable_completions."@ + name + ".sql must not be empty"@,
        ),
        !blank(cfg.sql@) && completion_fault(name, cfg) is Some ==> completion_fault(name, cfg)
            == Some(
            "variable_completions."@ + name
                + ".sql must reference the `:1` placeholder (bound to the typed prefix)"@,
        ),
{
    let s = cfg.sql@;
    reveal_strlit(":1");
    assert forall|i: int| #[trigger] colon_one_at(s, i) == #[trigger] prefix_placeholder_at(
        s,
        i,
    ) by {
        if colon_one_at(s, i) {
            assert(s.subrange(i, i + 2) =~= ":1"@);
        }
        if prefix_placeholder_at(s, i) {
            assert(s.subrange(i, i + 2)[0] == s[i] && s.subrange(i, i + 2)[1] == s[i + 1]);
        }
    }
    if has_single_prefix_placeholder(s) {
        let i = choose|i: int| #[trigger]
            prefix_placeholder_at(s, i) && forall|j: int| #[trigger]
                prefix_placeholder_at(s, j) ==> j == i;
        assert(colon_one_at(s, i));
        assert forall|j: int| #[trigger] colon_one_at(s, j) implies j == i by {
            assert(prefix_placeholder_at(s, j));
        }
    }
    if exists|i: int| #[trigger]
        colon_one_at(s, i) && forall|j: int| #[trigger] colon_one_at(s, j) ==> j == i {
        let i = choose|i: int| #[trigger]
            colon_one_at(s, i) && forall|j: int| #[trigger] colon_one_at(s, j) ==> j == i;
        assert(prefix_placeholder_at(s, i));
        assert forall|j: int| #[trigger] prefix_placeholder_at(s, j) implies j == i by {
            assert(colon_one_at(s, j));
        }
    }
}

/// In a statement without quotes and comments, each character is a piece of its
/// own.
pub proof fn lemma_plain_statement_is_all_code(sql: Seq<char>, i: int)
    requires
        0 <= i <= sql.len(),
        forall|k: int|
            0 <= k < sql.len() ==> #[trigger] sql[k] != '\'' && sql[k] != '"' && sql[k] != '-'
                && sql[k] != '/',
    ensures
        piece_at(sql, i),
{
    lemma_all_reached(sql, 0, i);
}

proof fn lemma_all_reached(sql: Seq<char>, p: int, i: int)
    requires
        0 <= p <= i <= sql.len(),
        forall|k: int|
            0 <= k < sql.len() ==> #[trigger] sql[k] != '\'' && sql[k] != '"' && sql[k] != '-'
                && sql[k] != '/',
    ensures
        reached(sql, p, i),
    decreases i - p,
{
    if p < i {
        reveal_strlit("'");
        reveal_strlit("\"");
        reveal_strlit("--");
        reveal_strlit("/*");
        assert(sql[p] != '\'' && sql[p] != '"' && sql[p] != '-' && sql[p] != '/');
        if occurs_at(sql, "'"@, p) {
            assert(sql.subrange(p, p + 1)[0] == sql[p]);
        }
        if occurs_at(sql, "\""@, p) {
            assert(sql.subrange(p, p + 1)[0] == sql[p]);
        }
        if occurs_at(sql, "--"@, p) {
            assert(sql.subrange(p, p + 2)[0] == sql[p]);
        }
        if occurs_at(sql, "/*"@, p) {
            assert(sql.subrange(p, p + 2)[0] == sql[p]);
        }
        if p + 1 < sql.len() {
            assert(sql[p + 1] != '\'');
        }
        assert(piece_end(sql, p) == p + 1);
        lemma_all_reached(sql, p + 1, i);
    }
}

/// A string literal ends behind its next quote.
pub proof fn lemma_literal_ends_at_its_quote(sql: Seq<char>, p: int, q: int)
    requires
        0 <= p < q < sql.len(),
        sql[p] == '\'',
        sql[q] == '\'',
        forall|k: int| p < k < q ==> #[trigger] sql[k] != '\'',
    ensures
        piece_end(sql, p) == q + 1,
{
    reveal_strlit("'");
    assert(sql.subrange(p, p + 1) =~= "'"@);
    assert(sql.subrange(q, q + 1) =~= "'"@);
    assert forall|k: int| p + 1 <= k < q implies !occurs_at(sql, "'"@, k) by {
        if occurs_at(sql, "'"@, k) {
            assert(sql.subrange(k, k + 1)[0] == sql[k]);
        }
    }
    lemma_first_at(sql, "'"@, p + 1, q);
}

/// A quoted name ends behind its next quote.
pub proof fn lemma_quoted_name_ends_at_its_quote(sql: Seq<char>, p: int, q: int)
    requires
        0 <= p < q < sql.len(),
        sql[p] == '"',
        sql[q] == '"',
        forall|k: int| p < k < q ==> #[trigger] sql[k] != '"',
    ensures
        piece_end(sql, p) == q + 1,
{
    reveal_strlit("'");
    reveal_strlit("\"");
    if occurs_at(sql, "'"@, p) {
        assert(sql.subrange(p, p + 1)[0] == sql[p]);
    }
    assert(sql.subrange(p, p + 1) =~= "\""@);
    assert(sql.subrange(q, q + 1) =~= "\""@);
    assert forall|k: int| p + 1 <= k < q implies !occurs_at(sql, "\""@, k) by {
        if occurs_at(sql, "\""@, k) {
            assert(sql.subrange(k, k + 1)[0] == sql[k]);
        }
    }
    lemma_first_at(sql, "\""@, p + 1, q);
}

/// A comment behind two dashes ends with its line, and one between slashes and
/// stars ends with the next star and slash.
pub proof fn lemma_comments_end(sql: Seq<char>, p: int, q: int)
    requires
        0 <= p && p + 2 <= q < sql.len(),
    ensures
        sql[p] == '-' && sql[p + 1] == '-' && sql[q] == '\n' && (forall|k: int|
            p + 2 <= k < q ==> #[trigger] sql[k] != '\n') ==> piece_end(sql, p) == q + 1,
        q + 1 < sql.len() && sql[p] == '/' && sql[p + 1] == '*' && sql[q] == '*' && sql[q + 1]
            == '/' && (forall|k: int|
            p + 2 <= k < q ==> !(#[trigger] sql[k] == '*' && sql[k + 1] == '/')) ==> piece_end(
            sql,
            p,
        ) == q + 2,
{
    reveal_strlit("'");
    reveal_strlit("\"");
    reveal_strlit("--");
    reveal_strlit("/*");
    reveal_strlit("*/");
    reveal_strlit("\n");
    assert(sql.subrange(p, p + 1)[0] == sql[p]);
    assert(sql.subrange(p, p + 2)[0] == sql[p] && sql.subrange(p, p + 2)[1] == sql[p + 1]);
    if sql[p] == '-' && sql[p + 1] == '-' && sql[q] == '\n' && (forall|k: int|
        p + 2 <= k < q ==> #[trigger] sql[k] != '\n') {
        assert(sql.subrange(p, p + 2) =~= "--"@);
        assert(sql.subrange(q, q + 1) =~= "\n"@);
        assert forall|k: int| p + 2 <= k < q implies !occurs_at(sql, "\n"@, k) by {
            if occurs_at(sql, "\n"@, k) {
                assert(sql.subrange(k, k + 1)[0] == sql[k]);
            }
        }
        lemma_first_at(sql, "\n"@, p + 2, q);
    }
    if q + 1 < sql.len() && sql[p] == '/' && sql[p + 1] == '*' && sql[q] == '*' && sql[q + 1] == '/'
        && (forall|k: int| p + 2 <= k < q ==> !(#[trigger] sql[k] == '*' && sql[k + 1] == '/')) {
        assert(sql.subrange(p, p + 2) =~= "/*"@);
        assert(sql.subrange(q, q + 2) =~= "*/"@);
        assert forall|k: int| p + 2 <= k < q implies !occurs_at(sql, "*/"@, k) by {
            if occurs_at(sql, "*/"@, k) {
                assert(sql.subrange(k, k + 2)[0] == sql[k] && sql.subrange(k, k + 2)[1] == sql[k
                    + 1]);
            }
        }
        lemma_first_at(sql, "*/"@, p + 2, q);
    }
}

/// A literal with a delimiter of its own ends with the closing delimiter and the
/// quote behind it; brackets close in pairs, any other delimiter closes itself.
pub proof fn lemma_delimited_literal_ends(sql: Seq<char>, p: int, close: char, q: int)
    requires
        0 <= p && p + 3 <= q && q + 1 < sql.len(),
        sql[p] == 'q' || sql[p] == 'Q',
        sql[p + 1] == '\'',
        match sql[p + 2] {
            '(' => close == ')',
            '[' => close == ']',
            '{' => close == '}',
            '<' => close == '>',
            c => close == c,
        },
        sql[q] == close,
        sql[q + 1] == '\'',
        forall|k: int| p + 3 <= k < q ==> !(#[trigger] sql[k] == close && sql[k + 1] == '\''),
    ensures
        piece_end(sql, p) == q + 2,
{
    reveal_strlit("'");
    reveal_strlit("\"");
    reveal_strlit("--");
    reveal_strlit("/*");
    assert(sql.subrange(p, p + 1)[0] == sql[p]);
    assert(sql.subrange(p, p + 2)[0] == sql[p]);
    let mark = seq![close, '\''];
    assert(sql.subrange(q, q + 2) =~= mark);
    assert forall|k: int| p + 3 <= k < q implies !occurs_at(sql, mark, k) by {
        if occurs_at(sql, mark, k) {
            assert(sql.subrange(k, k + 2)[0] == sql[k] && sql.subrange(k, k + 2)[1] == sql[k + 1]);
        }
    }
    lemma_first_at(sql, mark, p + 3, q);
}

/// Of a list of completions, the first that is not accepted is the fault, and
/// there is no fault where all are accepted.
pub proof fn lemma_every_completion_is_checked(entries: Seq<(Seq<char>, CompletionConfig)>, i: int)
    requires
        0 <= i <= entries.len(),
        forall|j: int|
            0 <= j < i ==> completion_fault((#[trigger] entries[j]).0, entries[j].1) is None,
        i < entries.len() ==> completion_fault(entries[i].0, entries[i].1) is Some,
    ensures
        i < entries.len() ==> completions_fault(entries) == completion_fault(
            entries[i].0,
            entries[i].1,
        ),
        i == entries.len() ==> completions_fault(entries) is None,
    decreases entries.len(),
{
    if entries.len() > 0 && i > 0 {
        let rest = entries.skip(1);
        assert(completion_fault(entries[0].0, entries[0].1) is None);
        assert forall|j: int| 0 <= j < i - 1 implies completion_fault(
            (#[trigger] rest[j]).0,
            rest[j].1,
        ) is None by {
            assert(rest[j] == entries[j + 1]);
        }
        if i < entries.len() {
            assert(rest[i - 1] == entries[i]);
        }
        lemma_every_completion_is_checked(rest, i - 1);
    }
}

/// A spec is refused for the first of these faults that it has, with these words;
/// one without a fault is accepted.
pub proof fn lemma_registration_refuses_by_the_first_fault(
    spec: OracleBackendSpec,
    verdicts: Verdicts,
)
    ensures
        register_fault(spec, verdicts) == (if blank(spec.dsn@) {
            Some("dsn must not be empty"@)
        } else if blank(spec.username@) {
            Some("username must not be empty"@)
        } else if spec.operation == OracleOperation::Query && blank(spec.query@) && missing(
            spec.read_query,
        ) {
            Some(
                "query must not be empty (or set `read_query` for a resource_template read binding)"@,
            )
        } else if spec.operation == OracleOperation::ListColumns && missing(spec.table) && missing(
            spec.table_arg,
        ) {
            Some(
                "operation: list_columns requires a `table` filter or a `table_arg` (the table whose columns to list)"@,
            )
        } else if spec.timeout_ms == 0 {
            Some("timeout_ms must be greater than 0"@)
        } else if spec.size_limit == 0 {
            Some("size_limit must be greater than 0"@)
        } else if spec.pool_max_size == 0 {
            Some("pool_max_size must be greater than 0"@)
        } else if begins_with(spec.password@, "cred://"@) {
            Some(
                "password must not be a cred:// URI — per-caller credentials are unsupported (the connection is one service identity); use ${env.X} / vault:// (resolved at config load) instead"@,
            )
        } else if spec.uri is Some && spec.surface == Surface::Tool {
            Some(
                "`uri` is only valid with `surface: resource` (this binding is `surface: "@
                    + "tool"@ + "`)"@,
            )
        } else if spec.uri is Some && spec.surface == Surface::Prompt {
            Some(
                "`uri` is only valid with `surface: resource` (this binding is `surface: "@
                    + "prompt"@ + "`)"@,
            )
        } else if spec.uri is Some && blank(spec.uri->0@) {
            Some("`uri` must not be empty"@)
        } else if spec.read_query is Some && blank(spec.read_query->0@) {
            Some("`read_query` must not be empty"@)
        } else if spec.read_query is Some && spec.surface == Surface::Tool {
            Some(
                "`read_query` is only valid with `surface: resource` (this binding is `surface: "@
                    + "tool"@ + "`)"@,
            )
        } else if spec.read_query is Some && spec.surface == Surface::Prompt {
            Some(
                "`read_query` is only valid with `surface: resource` (this binding is `surface: "@
                    + "prompt"@ + "`)"@,
            )
        } else if spec.read_query is Some && contains_text(spec.read_query->0@, "cred://"@) {
            Some(
                "read_query"@
                    + " must not contain a bare cred:// URI — use ${cred://…} (resolved at config load)"@,
            )
        } else if spec.read_query is Some && verdicts.read_only is Err {
            Some(verdicts.read_only->Err_0@)
        } else if spec.list_query is Some && list_query_fault(spec.list_query->0) is Some {
            list_query_fault(spec.list_query->0)
        } else if completions_fault(spec.variable_completions.entries()) is Some {
            completions_fault(spec.variable_completions.entries())
        } else if spec.operation == OracleOperation::Query && verdicts.params is Err {
            Some(verdicts.params->Err_0@)
        } else if verdicts.pool is Err {
            Some(verdicts.pool->Err_0@)
        } else {
            None
        }),
{
    let fault = register_fault(spec, verdicts);
    match spec.read_query {
        Some(q) => {
            assert(spec.read_query.deep_view() == Some(q@));
        },
        None => {
            assert(spec.read_query.deep_view() is None);
        },
    }
    match spec.table {
        Some(t) => {
            assert(spec.table.deep_view() == Some(t@));
        },
        None => {
            assert(spec.table.deep_view() is None);
        },
    }
    match spec.table_arg {
        Some(t) => {
            assert(spec.table_arg.deep_view() == Some(t@));
        },
        None => {
            assert(spec.table_arg.deep_view() is None);
        },
    }
}

/// A registered binding is what its spec says: the login, the data source, the
/// statement, the parameters one for one, the op, the filters, the limits, the
/// surface and the queries of resources.
pub proof fn lemma_binding_is_the_spec(p: OracleProfile, spec: OracleBackendSpec)
    requires
        stored_from(p, spec),
    ensures
        p.manager@.username == spec.username@,
        p.manager@.password == spec.password@,
        p.manager@.dsn == spec.dsn@,
        p.dsn@ == spec.dsn@,
        p.pool_max_size == spec.pool_max_size,
        p.query@ == spec.query@,
        p.compiled_params@.len() == spec.params@.len(),
        forall|i: int|
            0 <= i < spec.params@.len() ==> (#[trigger] p.compiled_params@[i]).source@
                == spec.params@[i]@,
        p.op == spec.op,
        p.operation == spec.operation,
        p.catalog_filters.owner == spec.owner,
        p.catalog_filters.table == spec.table,
        p.catalog_filters.owner_arg == spec.owner_arg,
        p.catalog_filters.table_arg == spec.table_arg,
        p.size_limit == spec.size_limit,
        p.timeout_ms == spec.timeout_ms,
        p.surface == spec.surface,
        p.surface_uri == spec.uri,
        p.list_query == spec.list_query,
        p.read_query == spec.read_query,
        p.variable_completions@ == spec.variable_completions@,
{
    let a = sources(p.compiled_params@);
    let b = spec.params.deep_view();
    assert(a == b);
    assert(a.len() == p.compiled_params@.len() && b.len() == spec.params@.len());
    assert forall|i: int| 0 <= i < spec.params@.len() implies (
    #[trigger] p.compiled_params@[i]).source@ == spec.params@[i]@ by {
        assert(a[i] == p.compiled_params@[i].source@);
        assert(b[i] == spec.params@[i]@);
    }
}

/// A watch is refused for the first of these faults that it has, with these
/// words; one without a fault is accepted.
pub proof fn lemma_watch_refuses_by_the_first_fault(
    spec: WatchSpec,
    read_only: Result<(), String>,
)
    ensures
        watch_fault(spec, read_only) == (if blank(spec.dsn@) {
            Some("dsn must not be empty"@)
        } else if blank(spec.username@) {
            Some("username must not be empty"@)
        } else if blank(spec.tracking_query@) {
            Some("tracking_query must not be empty"@)
        } else if begins_with(spec.password@, "cred://"@) {
            Some(
                "password must not be a cred:// URI — per-caller credentials are unsupported (the connection is one service identity); use ${env.X} / vault:// (resolved at config load) instead"@,
            )
        } else if read_only is Err {
            Some(read_only->Err_0@)
        } else {
            None
        }),
{
}

/// A watch runs as its spec says: with its login, its tracking query as a query
/// of one row without binds, its cadence and its budget, on one connection.
pub proof fn lemma_watch_is_the_spec(plan: WatchPlan, spec: WatchSpec)
    requires
        watches(plan, spec),
    ensures
        plan.manager@.username == spec.username@,
        plan.manager@.password == spec.password@,
        plan.manager@.dsn == spec.dsn@,
        plan.pool_max_size == 1,
        plan.tracking@.sql == spec.tracking_query@,
        plan.tracking@.binds.len() == 0,
        plan.tracking@.op == OracleOp::Query,
        plan.tracking@.size_limit == 1,
        plan.interval_ms == spec.interval_ms,
        plan.timeout_ms == spec.timeout_ms,
{
}

} // verus!
