//! Listing the resources of a binding, and completing the variables of a
//! resource template. Both run a statement that the operator fixed; a caller's
//! value reaches it as a bind only.

use vstd::prelude::*;
use vstd::string::*;

use crate::call::{PlanView, StatementPlan};
use crate::json::{entry_views, views, Json, JsonView};
use crate::oracle::QueryOutcome;
use crate::params::{bind_views, BindView, OracleBind};
use crate::plugin::{BackendError, OracleBackendPlugin};
use crate::surface::{
    candidates, capped, lemma_offset_cursor_reads_back, listed_resources, next_cursor,
    resource_views, rows_to_completion_values, rows_to_resource_page, ResourcePage,
};
use crate::text::{parse_u64, u64_value};
use crate::types::{CompletionConfig, ListQueryConfig, ListQueryMode, OracleOp};

verus! {

/// A 64-bit number read as a signed one, as the driver takes it.
pub open spec fn as_signed(n: nat) -> int {
    if n <= i64::MAX {
        n as int
    } else {
        n - 0x1_0000_0000_0000_0000
    }
}

fn to_signed(n: u64) -> (r: i64)
    ensures
        r == as_signed(n as nat),
{
    let r: i64 = #[verifier::truncate]
    (n as i64);
    assert(if n <= 0x7fff_ffff_ffff_ffffu64 {
        (n as i64) == n
    } else {
        (n as i64) == n - 0x1_0000_0000_0000_0000
    }) by (bit_vector);
    r
}

// --------------------------------------------------------------------- listing

/// A page of a listing that is ready to be read.
#[derive(Debug, PartialEq)]
pub struct ListingPlan {
    pub statement: StatementPlan,
    pub list_query: ListQueryConfig,
    pub prior_offset: u64,
}

/// How many rows come before the page that a cursor stands for: in offset mode
/// the cursor says so, and one that is no number says nothing.
pub open spec fn offset_before(mode: ListQueryMode, cursor: Option<Seq<char>>) -> Option<u64> {
    match (mode, cursor) {
        (ListQueryMode::Offset, Some(c)) => u64_value(c),
        _ => Some(0),
    }
}

/// The binds of a listing. In keyset mode the cursor comes first, null on the
/// first page, then the page size; in offset mode the page size, then the
/// offset.
pub open spec fn listing_binds(
    cfg: ListQueryConfig,
    cursor: Option<Seq<char>>,
    offset: nat,
) -> Seq<BindView> {
    let page_size = BindView::Int(cfg.page_size as int);
    match cfg.mode {
        ListQueryMode::Keyset => seq![
            match cursor {
                Some(c) => BindView::Str(c),
                None => BindView::Null,
            },
            page_size,
        ],
        ListQueryMode::Offset => seq![page_size, BindView::Int(as_signed(offset))],
    }
}

/// The statement of a listing.
pub open spec fn listing_statement(
    cfg: ListQueryConfig,
    cursor: Option<Seq<char>>,
    offset: nat,
) -> PlanView {
    PlanView {
        sql: cfg.sql@,
        binds: listing_binds(cfg, cursor, offset),
        op: OracleOp::Query,
        size_limit: cfg.page_size as nat,
    }
}

fn build_listing(cfg: &ListQueryConfig, cursor: Option<&str>, offset: u64) -> (r: StatementPlan)
    requires
        cfg.page_size <= 1_000,
    ensures
        r@ == listing_statement(*cfg, cursor.deep_view(), offset as nat),
{
    let page_size = OracleBind::Int(cfg.page_size as i64);
    let binds = match cfg.mode {
        ListQueryMode::Keyset => {
            let first = match cursor {
                Some(c) => OracleBind::Str(c.to_owned()),
                None => OracleBind::Null,
            };
            vec![first, page_size]
        },
        ListQueryMode::Offset => vec![page_size, OracleBind::Int(to_signed(offset))],
    };
    assert(bind_views(binds@) =~= listing_binds(*cfg, cursor.deep_view(), offset as nat));
    StatementPlan {
        sql: cfg.sql.clone(),
        binds,
        op: OracleOp::Query,
        size_limit: cfg.page_size as usize,
    }
}

impl OracleBackendPlugin {
    /// Plan a page of a binding's listing. A binding without a listing has no
    /// plan, and lists nothing.
    pub fn plan_listing(&self, backend_name: &str, cursor: Option<&str>) -> (r: Result<
        Option<ListingPlan>,
        BackendError,
    >)
        requires
            self.wf(),
        ensures
            if !self@.dom().contains(backend_name@) {
                r matches Err(BackendError::ProfileNotFound { backend_name: name }) && name@
                    == backend_name@
            } else {
                match self@[backend_name@].list_query {
                    None => r matches Ok(None),
                    Some(cfg) => match offset_before(cfg.mode, cursor.deep_view()) {
                        Some(offset) => {
                            &&& r matches Ok(Some(plan))
                            &&& plan.list_query == cfg
                            &&& plan.prior_offset == offset
                            &&& plan.statement@ == listing_statement(
                                cfg,
                                cursor.deep_view(),
                                offset as nat,
                            )
                        },
                        None => {
                            &&& r matches Err(BackendError::InvalidSpec { message })
                            &&& message@ == "offset-mode cursor '"@ + cursor.deep_view()->0
                                + "' is not a non-negative integer"@
                        },
                    },
                }
            },
    {
        let profile = match self.profile(backend_name) {
            Some(p) => p,
            None => {
                return Err(
                    BackendError::ProfileNotFound { backend_name: backend_name.to_owned() },
                );
            },
        };
        let cfg = match &profile.list_query {
            Some(cfg) => cfg,
            None => {
                return Ok(None);
            },
        };
        let prior_offset: u64 = match (cfg.mode, cursor) {
            (ListQueryMode::Offset, Some(c)) => match parse_u64(c) {
                Some(n) => n,
                None => {
                    let mut message = "offset-mode cursor '".to_owned();
                    message.append(c);
                    message.append("' is not a non-negative integer");
                    return Err(BackendError::InvalidSpec { message });
                },
            },
            _ => 0,
        };
        let statement = build_listing(cfg, cursor, prior_offset);
        Ok(Some(ListingPlan { statement, list_query: cfg.clone(), prior_offset }))
    }
}

/// The offset of the row after the page can be counted.
pub open spec fn next_offset_fits(plan: ListingPlan, rows: Seq<JsonView>) -> bool {
    plan.list_query.mode == ListQueryMode::Offset && rows.len() >= plan.list_query.page_size
        ==> plan.prior_offset + rows.len() <= u64::MAX
}

/// Turn the result of a listing's statement into a page.
pub fn finish_listing(plan: &ListingPlan, result: Result<QueryOutcome, String>) -> (r: Result<
    ResourcePage,
    BackendError,
>)
    requires
        result matches Ok(outcome) ==> next_offset_fits(*plan, outcome@.row_list()),
    ensures
        match result {
            Ok(outcome) => {
                &&& r matches Ok(page)
                &&& resource_views(page.resources@) == listed_resources(outcome@.row_list())
                &&& page.next_cursor.deep_view() == next_cursor(
                    outcome@.row_list(),
                    plan.list_query.mode,
                    plan.list_query.cursor_column.deep_view(),
                    plan.list_query.page_size as nat,
                    plan.prior_offset as nat,
                )
            },
            Err(e) => r matches Err(BackendError::Transport { message }) && message@ == e@,
        },
{
    match result {
        Ok(outcome) => {
            let rows = outcome.into_rows();
            assert(rows@.len() == views(rows@).len());
            Ok(rows_to_resource_page(rows.as_slice(), &plan.list_query, plan.prior_offset))
        },
        Err(message) => Err(BackendError::Transport { message }),
    }
}

// ------------------------------------------------------------------ completion

/// A completion that is ready to be read.
#[derive(Debug, PartialEq)]
pub struct CompletionPlan {
    pub statement: StatementPlan,
    pub max: usize,
}

/// How many candidates a completion returns at most.
pub open spec fn completion_cap(cfg: CompletionConfig) -> nat {
    match cfg.max_results {
        Some(n) => n as nat,
        None => 100,
    }
}

/// The statement of a completion, with the typed prefix as its one bind.
pub open spec fn completion_statement(cfg: CompletionConfig, prefix: Seq<char>) -> PlanView {
    PlanView {
        sql: cfg.sql@,
        binds: seq![BindView::Str(prefix)],
        op: OracleOp::Query,
        size_limit: completion_cap(cfg),
    }
}

impl OracleBackendPlugin {
    /// Plan the completion of a template variable. A variable without a
    /// completion has no plan, and no candidates.
    pub fn plan_completion(&self, backend_name: &str, variable_name: &str, prefix: &str) -> (r:
        Result<Option<CompletionPlan>, BackendError>)
        requires
            self.wf(),
        ensures
            if !self@.dom().contains(backend_name@) {
                r matches Err(BackendError::ProfileNotFound { backend_name: name }) && name@
                    == backend_name@
            } else {
                let completions = self@[backend_name@].variable_completions@;
                if completions.dom().contains(variable_name@) {
                    &&& r matches Ok(Some(plan))
                    &&& plan.statement@ == completion_statement(
                        completions[variable_name@],
                        prefix@,
                    )
                    &&& plan.max == completion_cap(completions[variable_name@])
                } else {
                    r matches Ok(None)
                }
            },
    {
        let profile = match self.profile(backend_name) {
            Some(p) => p,
            None => {
                return Err(
                    BackendError::ProfileNotFound { backend_name: backend_name.to_owned() },
                );
            },
        };
        let cfg = match profile.variable_completions.get(variable_name) {
            Some(cfg) => cfg,
            None => {
                return Ok(None);
            },
        };
        let max: usize = match cfg.max_results {
            Some(n) => n as usize,
            None => 100,
        };
        let binds = vec![OracleBind::Str(prefix.to_owned())];
        assert(bind_views(binds@) =~= seq![BindView::Str(prefix@)]);
        let statement = StatementPlan {
            sql: cfg.sql.clone(),
            binds,
            op: OracleOp::Query,
            size_limit: max,
        };
        Ok(Some(CompletionPlan { statement, max }))
    }
}

/// The name of the first column, as the first row has it.
pub open spec fn first_column(rows: Seq<JsonView>) -> Option<Seq<char>> {
    if rows.len() > 0 && rows[0] is Object && rows[0]->Object_0.len() > 0 {
        Some(rows[0]->Object_0[0].0)
    } else {
        None
    }
}

fn find_first_column(rows: &Vec<Json>) -> (r: Option<&str>)
    ensures
        r.deep_view() == first_column(views(rows@)),
{
    broadcast use Json::lemma_view;

    if rows.len() == 0 {
        return None;
    }
    assert(views(rows@)[0] == rows@[0]@);
    match &rows[0] {
        Json::Object(entries) => {
            assert(rows@[0]@ == JsonView::Object(entry_views(entries@)));
            if entries.len() == 0 {
                None
            } else {
                Some(entries[0].0.as_str())
            }
        },
        _ => None,
    }
}

/// Turn the result of a completion's statement into candidates: the texts in
/// the first column.
pub fn finish_completion(max: usize, result: Result<QueryOutcome, String>) -> (r: Result<
    Vec<String>,
    BackendError,
>)
    ensures
        match result {
            Ok(outcome) => {
                &&& r matches Ok(values)
                &&& values.deep_view() == candidates(
                    capped(outcome@.row_list(), max as nat),
                    first_column(outcome@.row_list()),
                )
            },
            Err(e) => r matches Err(BackendError::Transport { message }) && message@ == e@,
        },
{
    match result {
        Ok(outcome) => {
            let rows = outcome.into_rows();
            let column = find_first_column(&rows);
            Ok(rows_to_completion_values(rows.as_slice(), column, max))
        },
        Err(message) => Err(BackendError::Transport { message }),
    }
}

// ----------------------------------------------------------------------- laws

/// A cursor that a listing hands out in offset mode is one that it takes back:
/// the next page begins after the rows of this one.
pub proof fn lemma_next_page_follows(rows: Seq<JsonView>, cfg: ListQueryConfig, prior_offset: u64)
    requires
        cfg.mode == ListQueryMode::Offset,
        rows.len() >= cfg.page_size,
        prior_offset + rows.len() <= u64::MAX,
    ensures
        offset_before(
            cfg.mode,
            next_cursor(
                rows,
                cfg.mode,
                cfg.cursor_column.deep_view(),
                cfg.page_size as nat,
                prior_offset as nat,
            ),
        ) == Some((prior_offset + rows.len()) as u64),
{
    lemma_offset_cursor_reads_back(
        rows,
        cfg.cursor_column.deep_view(),
        cfg.page_size as nat,
        prior_offset,
    );
}

/// The text and the kind of a listing's statement are fixed by the operator: a
/// cursor changes its binds only, of which there are always two.
pub proof fn lemma_listing_is_operator_fixed(
    cfg: ListQueryConfig,
    a: Option<Seq<char>>,
    m: nat,
    b: Option<Seq<char>>,
    n: nat,
)
    ensures
        listing_statement(cfg, a, m).sql == listing_statement(cfg, b, n).sql,
        listing_statement(cfg, a, m).op == OracleOp::Query,
        listing_statement(cfg, a, m).binds.len() == 2,
{
}

/// The text and the kind of a completion's statement are fixed by the operator:
/// what a caller typed is its one bind, whole and unchanged.
pub proof fn lemma_completion_is_operator_fixed(
    cfg: CompletionConfig,
    typed: Seq<char>,
    other: Seq<char>,
)
    ensures
        completion_statement(cfg, typed).sql == completion_statement(cfg, other).sql,
        completion_statement(cfg, typed).op == OracleOp::Query,
        completion_statement(cfg, typed).binds == seq![BindView::Str(typed)],
{
}

} // verus!
