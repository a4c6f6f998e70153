//! The polling watch strategy, kind `oracle_poll`.
//!
//! A cheap read-only scalar query, the high-water mark of a resource, is run on
//! a cadence; a change is signalled whenever the scalar moves. Here a watch is
//! checked and planned, and the result of a tick is read; the loop that ticks
//! runs outside.

use vstd::prelude::*;
use vstd::string::*;

use crate::call::StatementPlan;
use crate::json::{entry_views, views, Json, JsonView};
use crate::oracle::{failure, LoginView, OracleManager, OutcomeView, QueryOutcome};
use crate::plugin::{check_password, password_fault, PluginClass, PluginManifest};
use crate::surface::{cursor_text, cursor_value_to_string};
use crate::text::{blank, is_blank};
use crate::types::OracleOp;

verus! {

/// The plugin that the strategy belongs to.
pub const PLUGIN_ID: &'static str = "dev.mcpg.backend.oracle";

/// The kind of watches that the strategy handles.
pub const WATCH_KIND: &'static str = "oracle_poll";

/// The poll cadence where the spec names none.
pub fn default_interval_ms() -> (r: u64)
    ensures
        r == 60_000,
{
    60_000
}

/// The budget of a tick where the spec names none.
pub fn default_timeout_ms() -> (r: u64)
    ensures
        r == 10_000,
{
    10_000
}

/// The spec of one watch, which carries its own connection.
#[derive(Debug, PartialEq)]
pub struct WatchSpec {
    pub dsn: String,
    pub username: String,
    pub password: String,
    /// The high-water query; the first column of its first row is the cursor.
    pub tracking_query: String,
    /// Poll cadence in milliseconds.
    pub interval_ms: u64,
    /// Budget of a tick in milliseconds.
    pub timeout_ms: u64,
}

/// Why a watch cannot be started.
#[derive(Debug, PartialEq)]
pub enum WatchError {
    InvalidSpec { message: String },
    Subscribe { message: String },
}

/// A watch that is ready to run.
pub struct WatchPlan {
    /// The login of the watch's own connection pool.
    pub manager: OracleManager,
    pub pool_max_size: usize,
    /// What each tick runs.
    pub tracking: StatementPlan,
    pub interval_ms: u64,
    pub timeout_ms: u64,
}

/// Why a watch is refused, if it is; the first fault counts. Whether the
/// tracking query only reads is the guard's verdict.
pub open spec fn watch_fault(spec: WatchSpec, read_only: Result<(), String>) -> Option<Seq<char>> {
    if blank(spec.dsn@) {
        Some("dsn must not be empty"@)
    } else if blank(spec.username@) {
        Some("username must not be empty"@)
    } else if blank(spec.tracking_query@) {
        Some("tracking_query must not be empty"@)
    } else if password_fault(spec.password@) is Some {
        password_fault(spec.password@)
    } else {
        match read_only {
            Ok(_) => None,
            Err(e) => Some(e@),
        }
    }
}

/// What a plan takes from a spec: the login, the cadence, and the tracking
/// query as a query without binds that returns one row at most, over a single
/// connection.
pub open spec fn watches(plan: WatchPlan, spec: WatchSpec) -> bool {
    &&& plan.manager@ == (LoginView {
        username: spec.username@,
        password: spec.password@,
        dsn: spec.dsn@,
    })
    &&& plan.pool_max_size == 1
    &&& plan.tracking.sql@ == spec.tracking_query@
    &&& plan.tracking.binds@.len() == 0
    &&& plan.tracking.op == OracleOp::Query
    &&& plan.tracking.size_limit == 1
    &&& plan.interval_ms == spec.interval_ms
    &&& plan.timeout_ms == spec.timeout_ms
}

/// The watch strategy. It keeps nothing but its manifest.
#[derive(Debug)]
pub struct OracleWatchCdylib {
    manifest: PluginManifest,
}

impl OracleWatchCdylib {
    /// The strategy says what it is.
    pub closed spec fn wf(&self) -> bool {
        &&& self.manifest.id@ == PLUGIN_ID@
        &&& self.manifest.name@ == "Oracle Poll Watch Strategy"@
        &&& self.manifest.plugin_class == PluginClass::WatchStrategy
    }

    /// Make the strategy. There is no plugin-level configuration, so the text is
    /// ignored.
    pub fn from_host_config(_config_json: &str) -> (r: Self)
        ensures
            r.wf(),
    {
        OracleWatchCdylib {
            manifest: PluginManifest {
                id: PLUGIN_ID.to_owned(),
                name: "Oracle Poll Watch Strategy".to_owned(),
                plugin_class: PluginClass::WatchStrategy,
            },
        }
    }

    /// What the strategy says of itself.
    pub fn manifest(&self) -> (r: &PluginManifest)
        requires
            self.wf(),
        ensures
            r.id@ == PLUGIN_ID@,
            r.name@ == "Oracle Poll Watch Strategy"@,
            r.plugin_class == PluginClass::WatchStrategy,
    {
        &self.manifest
    }

    /// The kind of watches that the strategy handles.
    pub fn kind(&self) -> (r: &'static str)
        ensures
            r@ == WATCH_KIND@,
    {
        WATCH_KIND
    }

    /// Check a watch and plan its ticks.
    pub fn plan_watch(&self, spec: WatchSpec, read_only: Result<(), String>) -> (r: Result<
        WatchPlan,
        WatchError,
    >)
        ensures
            match watch_fault(spec, read_only) {
                Some(fault) => r matches Err(WatchError::InvalidSpec { message }) && message@
                    == fault,
                None => r matches Ok(plan) && watches(plan, spec),
            },
    {
        if is_blank(spec.dsn.as_str()) {
            return Err(WatchError::InvalidSpec { message: "dsn must not be empty".to_owned() });
        }
        if is_blank(spec.username.as_str()) {
            return Err(
                WatchError::InvalidSpec { message: "username must not be empty".to_owned() },
            );
        }
        if is_blank(spec.tracking_query.as_str()) {
            return Err(
                WatchError::InvalidSpec { message: "tracking_query must not be empty".to_owned() },
            );
        }
        if let Err(message) = check_password(spec.password.as_str()) {
            return Err(WatchError::InvalidSpec { message });
        }
        if let Err(message) = read_only {
            return Err(WatchError::InvalidSpec { message });
        }
        Ok(
            WatchPlan {
                manager: OracleManager::new(spec.username, spec.password, spec.dsn),
                pool_max_size: 1,
                tracking: StatementPlan {
                    sql: spec.tracking_query,
                    binds: Vec::new(),
                    op: OracleOp::Query,
                    size_limit: 1,
                },
                interval_ms: spec.interval_ms,
                timeout_ms: spec.timeout_ms,
            },
        )
    }
}

/// The error of a watch whose runtime cannot be started.
pub fn runtime_error(reason: &str) -> (r: WatchError)
    ensures
        r matches WatchError::Subscribe { message } && message@
            == "oracle_poll: tokio runtime init failed: "@ + reason@,
{
    WatchError::Subscribe {
        message: failure("oracle_poll: tokio runtime init failed: ", reason),
    }
}

/// The error of a watch whose pool cannot be built.
pub fn pool_error(reason: &str) -> (r: WatchError)
    ensures
        r matches WatchError::Subscribe { message } && message@
            == "oracle_poll: pool build failed: "@ + reason@,
{
    WatchError::Subscribe { message: failure("oracle_poll: pool build failed: ", reason) }
}

/// The scalar of a high-water query: the first column of the first row.
pub open spec fn high_water(outcome: OutcomeView) -> Option<JsonView> {
    match outcome.rows {
        Some(rows) => if rows.len() > 0 && rows[0] is Object && rows[0]->Object_0.len() > 0 {
            Some(rows[0]->Object_0[0].1)
        } else {
            None
        },
        None => None,
    }
}

/// The cursor of a tick; NULL stands for no signal.
pub open spec fn tick_cursor(outcome: OutcomeView) -> Option<Seq<char>> {
    match high_water(outcome) {
        Some(v) => if v is Null {
            None
        } else {
            Some(cursor_text(v))
        },
        None => None,
    }
}

/// Take the cursor from the outcome of a high-water query: a text is itself,
/// anything else its JSON rendering.
pub fn cursor_from_outcome(outcome: &QueryOutcome) -> (r: Option<String>)
    ensures
        r.deep_view() == tick_cursor(outcome@),
{
    broadcast use Json::lemma_view;

    let rows = match &outcome.rows {
        Some(rows) => rows,
        None => {
            return None;
        },
    };
    if rows.len() == 0 {
        return None;
    }
    assert(views(rows@)[0] == rows@[0]@);
    match &rows[0] {
        Json::Object(entries) => {
            assert(rows@[0]@ == JsonView::Object(entry_views(entries@)));
            if entries.len() == 0 {
                return None;
            }
            match &entries[0].1 {
                Json::Null => None,
                other => Some(cursor_value_to_string(other)),
            }
        },
        _ => None,
    }
}

/// Read the result of a tick: the cursor, none where there is no signal, or why
/// the tick failed.
pub fn poll_result(result: Result<QueryOutcome, String>) -> (r: Result<Option<String>, String>)
    ensures
        match result {
            Ok(outcome) => r matches Ok(cursor) && cursor.deep_view() == tick_cursor(outcome@),
            Err(e) => r matches Err(why) && why@ == e@,
        },
{
    match result {
        Ok(outcome) => Ok(cursor_from_outcome(&outcome)),
        Err(e) => Err(e),
    }
}

// ----------------------------------------------------------------------- laws

/// A tick without rows, or whose scalar is NULL, gives no signal.
pub proof fn lemma_no_row_no_signal(outcome: OutcomeView)
    requires
        outcome.rows matches Some(rows) ==> rows.len() == 0 || (rows[0] matches JsonView::Object(
            entries,
        ) && entries.len() > 0 && entries[0].1 is Null),
    ensures
        tick_cursor(outcome) is None,
{
}

} // verus!
