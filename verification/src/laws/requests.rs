//! Requests, ticks and audit events.

use vstd::prelude::*;

use crate::audit::{
    audit_action, audit_details, bare_cred_fault, event_id, is_system_identity, PluginIdentity,
};
use crate::call::{call_arguments, named_tool};
use crate::codec::json_parse;
use crate::json::{distinct_keys, JsonView};
use crate::laws::answers::lemma_field;
use crate::laws::texts::lemma_integers_differ_in_text;
use crate::oracle::OutcomeView;
use crate::params::{idents_from, word_end};
use crate::text::{
    contains_text, decimal, decimal_int, lemma_first_at, lemma_first_at_none, lower, occurs_at,
};
use crate::types::word_char;
use crate::watch::tick_cursor;

verus! {

/// A request has the JSON value of its payload as its arguments; an empty payload
/// stands for an object without entries.
pub proof fn lemma_arguments_are_the_payload(payload: Seq<u8>)
    ensures
        payload.len() > 0 ==> call_arguments(payload) == json_parse(payload),
        payload.len() == 0 ==> (call_arguments(payload) matches Ok(a) && a == JsonView::Object(
            Seq::empty(),
        )),
{
}

/// The tool's name is the value, whole, of the first header that has the name of
/// that header in whatever case; where there is none it is the binding's name.
pub proof fn lemma_tool_name_is_the_first_header(
    headers: Seq<(Seq<char>, Seq<char>)>,
    backend_name: Seq<char>,
    i: int,
)
    requires
        0 <= i <= headers.len(),
        forall|j: int| 0 <= j < i ==> lower((#[trigger] headers[j]).0) != "mcpg-tool-name"@,
        i < headers.len() ==> lower(headers[i].0) == "mcpg-tool-name"@,
    ensures
        i < headers.len() ==> named_tool(headers, backend_name) == headers[i].1,
        i == headers.len() ==> named_tool(headers, backend_name) == backend_name,
    decreases headers.len(),
{
    reveal_strlit("mcpg-tool-name");
    assert(lower("mcpg-tool-name"@) =~= "mcpg-tool-name"@);
    if headers.len() > 0 && i > 0 {
        let rest = headers.skip(1);
        assert(lower(headers[0].0) != "mcpg-tool-name"@);
        assert forall|j: int| 0 <= j < i - 1 implies lower((#[trigger] rest[j]).0)
            != "mcpg-tool-name"@ by {
            assert(rest[j] == headers[j + 1]);
        }
        if i < headers.len() {
            assert(rest[i - 1] == headers[i]);
        }
        lemma_tool_name_is_the_first_header(rest, backend_name, i - 1);
    }
}

/// The name of an argument in an expression: ASCII letters, digits and
/// underscores, one at least.
pub open spec fn argument_name(w: Seq<char>) -> bool {
    &&& w.len() > 0
    &&& forall|i: int|
        0 <= i < w.len() ==> 'a' <= #[trigger] w[i] <= 'z' || 'A' <= w[i] <= 'Z' || '0' <= w[i]
            <= '9' || w[i] == '_'
}

/// An expression refers to the name behind each `arguments.`, whole: the first
/// such name, then those in the rest of the expression. One without any refers
/// to none.
pub proof fn lemma_expression_refers_to_its_arguments(
    s: Seq<char>,
    from: int,
    p: int,
    w: Seq<char>,
)
    requires
        0 <= from <= p,
        occurs_at(s, "arguments."@, p),
        forall|j: int| from <= j < p ==> !occurs_at(s, "arguments."@, j),
        argument_name(w),
        occurs_at(s, w, p + 10),
        p + 10 + w.len() < s.len() ==> ({
            let c = s[p + 10 + w.len()];
            !('a' <= c <= 'z' || 'A' <= c <= 'Z' || '0' <= c <= '9' || c == '_')
        }),
    ensures
        idents_from(s, from) == seq![w] + idents_from(s, p + 10 + w.len()),
{
    reveal_strlit("arguments.");
    lemma_first_at(s, "arguments."@, from, p);
    assert(s.subrange(p + 10, p + 10 + w.len()) == w);
    lemma_word_runs(s, p + 10, p + 10 + w.len());
}

proof fn lemma_word_runs(s: Seq<char>, i: int, end: int)
    requires
        0 <= i <= end <= s.len(),
        forall|k: int| 0 <= k < end - i ==> word_char(#[trigger] s.subrange(i, end)[k]),
        end < s.len() ==> !word_char(s[end]),
    ensures
        word_end(s, i) == end,
    decreases end - i,
{
    if i < end {
        assert(s.subrange(i, end)[0] == s[i]);
        assert forall|k: int| 0 <= k < end - (i + 1) implies word_char(
            #[trigger] s.subrange(i + 1, end)[k],
        ) by {
            assert(s.subrange(i + 1, end)[k] == s.subrange(i, end)[k + 1]);
        }
        lemma_word_runs(s, i + 1, end);
    }
}

/// An expression without `arguments.` refers to no argument.
pub proof fn lemma_expression_without_arguments(s: Seq<char>)
    requires
        !contains_text(s, "arguments."@),
    ensures
        idents_from(s, 0).len() == 0,
{
    assert forall|j: int| 0 <= j implies !occurs_at(s, "arguments."@, j) by {}
    lemma_first_at_none(s, "arguments."@, 0);
}

/// A tick has the value in the first column of the first row as its cursor: a
/// text as it is, a number as its numeral, a truth value as its word. Without a
/// row, without a column and for NULL there is none.
pub proof fn lemma_tick_is_the_first_value(outcome: OutcomeView)
    ensures
        outcome.rows is None ==> tick_cursor(outcome) is None,
        outcome.rows matches Some(rows) ==> {
            &&& rows.len() == 0 ==> tick_cursor(outcome) is None
            &&& rows.len() > 0 ==> match rows[0] {
                JsonView::Object(entries) => if entries.len() == 0 {
                    tick_cursor(outcome) is None
                } else {
                    match entries[0].1 {
                        JsonView::Null => tick_cursor(outcome) is None,
                        JsonView::Text(t) => tick_cursor(outcome) == Some(t),
                        JsonView::Integer(n) => tick_cursor(outcome) == Some(decimal_int(n)),
                        JsonView::Decimal(t) => tick_cursor(outcome) == Some(t),
                        JsonView::Bool(b) => tick_cursor(outcome) == Some(
                            if b {
                                "true"@
                            } else {
                                "false"@
                            },
                        ),
                        _ => tick_cursor(outcome) is Some,
                    }
                },
                _ => tick_cursor(outcome) is None,
            }
        },
{
}

/// A high-water mark that moves is noticed: two ticks whose first values are
/// different integers, or different texts, have different cursors.
pub proof fn lemma_moving_mark_is_noticed(
    a: Seq<(Seq<char>, JsonView)>,
    b: Seq<(Seq<char>, JsonView)>,
    more: Seq<JsonView>,
    others: Seq<JsonView>,
)
    requires
        a.len() > 0,
        b.len() > 0,
        (a[0].1 is Integer && b[0].1 is Integer) || (a[0].1 is Text && b[0].1 is Text),
        a[0].1 != b[0].1,
    ensures
        ({
            let x = OutcomeView {
                rows: Some(seq![JsonView::Object(a)] + more),
                rows_affected: None,
            };
            let y = OutcomeView {
                rows: Some(seq![JsonView::Object(b)] + others),
                rows_affected: None,
            };
            &&& tick_cursor(x) is Some
            &&& tick_cursor(y) is Some
            &&& tick_cursor(x) != tick_cursor(y)
        }),
{
    let x = OutcomeView { rows: Some(seq![JsonView::Object(a)] + more), rows_affected: None };
    let y = OutcomeView { rows: Some(seq![JsonView::Object(b)] + others), rows_affected: None };
    assert((seq![JsonView::Object(a)] + more)[0] == JsonView::Object(a));
    assert((seq![JsonView::Object(b)] + others)[0] == JsonView::Object(b));
    lemma_tick_is_the_first_value(x);
    lemma_tick_is_the_first_value(y);
    if a[0].1 is Integer {
        lemma_integers_differ_in_text(a[0].1->Integer_0, b[0].1->Integer_0);
    }
}

/// Failures are audited, each outcome under its action; nothing else is.
pub proof fn lemma_failures_are_audited(label: Seq<char>)
    ensures
        label == "timeout"@ ==> audit_action(label) == Some(
            "dev.mcpg.backend.oracle.request_timeout"@,
        ),
        label == "transport_error"@ ==> audit_action(label) == Some(
            "dev.mcpg.backend.oracle.request_failed"@,
        ),
        label == "oracle_error"@ ==> audit_action(label) == Some(
            "dev.mcpg.backend.oracle.query_rejected"@,
        ),
        label == "invalid_spec"@ ==> audit_action(label) == Some(
            "dev.mcpg.backend.oracle.request_failed"@,
        ),
        label != "timeout"@ && label != "transport_error"@ && label != "oracle_error"@ && label
            != "invalid_spec"@ ==> audit_action(label) is None,
{
    reveal_strlit("timeout");
    reveal_strlit("transport_error");
    reveal_strlit("oracle_error");
    reveal_strlit("invalid_spec");
    assert("timeout"@.len() == 7 && "transport_error"@.len() == 15);
    assert("oracle_error"@.len() == 12 && "invalid_spec"@.len() == 12);
    assert("oracle_error"@[0] == 'o' && "invalid_spec"@[0] == 'i');
}

/// The details of an audit event have the binding, the duration, the outcome, the
/// alias, and the reason, whole, where there is one.
pub proof fn lemma_audit_details(
    backend_name: Seq<char>,
    duration_ms: nat,
    label: Seq<char>,
    alias: Seq<char>,
    reason: Option<Seq<char>>,
)
    ensures
        ({
            let d = audit_details(backend_name, duration_ms, label, alias, reason);
            &&& d is Object
            &&& d.field("backend"@) == Some(JsonView::Text(backend_name))
            &&& duration_ms < 0x1_0000_0000_0000_0000 ==> d.field("duration_ms"@) == Some(
                JsonView::Integer(duration_ms as int),
            )
            &&& d.field("duration_ms"@) == Some(
                JsonView::Integer((duration_ms % 0x1_0000_0000_0000_0000) as int),
            )
            &&& d.field("outcome"@) == Some(JsonView::Text(label))
            &&& d.field("alias"@) == Some(JsonView::Text(alias))
            &&& reason matches Some(why) ==> d->Object_0.len() == 5 && d.field("reason"@) == Some(
                JsonView::Text(why),
            )
            &&& reason is None ==> d->Object_0.len() == 4
        }),
{
    let e = audit_details(backend_name, duration_ms, label, alias, reason)->Object_0;
    reveal_strlit("backend");
    reveal_strlit("duration_ms");
    reveal_strlit("outcome");
    reveal_strlit("alias");
    reveal_strlit("reason");
    assert(e[0].0.len() == 7 && e[1].0.len() == 11 && e[2].0.len() == 7 && e[3].0.len() == 5);
    assert(e[0].0[0] == 'b' && e[2].0[0] == 'o');
    if reason is Some {
        assert(e[4].0.len() == 6);
    }
    assert(distinct_keys(e));
    lemma_field(e, 0);
    lemma_field(e, 1);
    lemma_field(e, 2);
    lemma_field(e, 3);
    if reason is Some {
        lemma_field(e, 4);
    }
    if duration_ms < 0x1_0000_0000_0000_0000 {
        assert(duration_ms % 0x1_0000_0000_0000_0000 == duration_ms) by (nonlinear_arith)
            requires
                duration_ms < 0x1_0000_0000_0000_0000,
        ;
    }
}

/// The identifier of an audit event has the request's own and the duration in
/// it, whole.
pub proof fn lemma_event_is_identified(request_id: Seq<char>, duration_ns: nat)
    ensures
        event_id(request_id, duration_ns) == "oracle-"@ + request_id + "-"@ + decimal(duration_ns),
{
}

/// The plugin acts as itself: a verified system identity without any grant.
pub proof fn lemma_plugin_acts_as_itself(id: PluginIdentity)
    requires
        is_system_identity(id),
    ensures
        id.kind@ == "system"@,
        id.trust_level@ == "verified"@,
        id.subject_id matches Some(s) && s@ == "dev.mcpg.backend.oracle"@,
        id.auth_provider is None,
        id.issuer is None,
        id.roles@.len() == 0,
        id.groups@.len() == 0,
        id.scopes@.len() == 0,
        id.attributes@.len() == 0,
{
}

/// A text that holds a bare credential URI is refused by the name of its field,
/// and no other text is.
pub proof fn lemma_bare_credentials_are_refused(field: Seq<char>, value: Seq<char>)
    ensures
        contains_text(value, "cred://"@) ==> bare_cred_fault(field, value) == Some(
            field
                + " must not contain a bare cred:// URI — use ${cred://…} (resolved at config load)"@,
        ),
        !contains_text(value, "cred://"@) ==> bare_cred_fault(field, value) is None,
{
}

} // verus!
