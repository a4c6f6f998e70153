//! The backend plugin and the bindings that are registered with it.
//!
//! Registration is fail-closed: a spec with any fault is refused as a whole, so
//! that no request ever meets a binding that did not pass the checks.

use vstd::prelude::*;
use vstd::string::*;

use crate::audit::{bare_cred_fault, reject_bare_cred};
use crate::catalog::CatalogFilterConfig;
use crate::oracle::{LoginView, OracleManager};
use crate::ordered::NameMap;
use crate::params::{sources, CompiledParam};
use crate::surface::Surface;
use crate::text::{begins_with, blank, blank_opt, contains_text, is_blank, is_blank_opt, starts_with};
use crate::types::{
    completion_fault, list_query_fault, reports, validate_completion, validate_list_query,
    CompletionConfig, ListQueryConfig, OracleBackendSpec, OracleOp, OracleOperation,
};

verus! {

// --------------------------------------------------------------------- errors

/// Why a request cannot be served.
#[derive(Debug, PartialEq)]
pub enum BackendError {
    InvalidSpec { message: String },
    Transport { message: String },
    ProfileNotFound { backend_name: String },
}

/// The answer to a request, as bytes.
#[derive(Debug, PartialEq)]
pub struct BackendResponse {
    pub payload: Vec<u8>,
    pub truncated: bool,
}

/// What a plugin is for.
#[derive(Debug, Clone, Copy, PartialEq, Eq, Structural)]
pub enum PluginClass {
    Backend,
    WatchStrategy,
}

/// What a plugin says of itself.
#[derive(Debug, PartialEq)]
pub struct PluginManifest {
    pub id: String,
    pub name: String,
    pub plugin_class: PluginClass,
}

// -------------------------------------------------------------------- profiles

/// A registered binding.
pub struct OracleProfile {
    /// The login of the binding's connection pool.
    pub manager: OracleManager,
    /// How many connections the pool may hold.
    pub pool_max_size: usize,
    pub dsn: String,
    pub query: String,
    pub compiled_params: Vec<CompiledParam>,
    pub op: OracleOp,
    pub operation: OracleOperation,
    /// The filters of the catalog operations.
    pub catalog_filters: CatalogFilterConfig,
    pub size_limit: usize,
    pub timeout_ms: u64,
    pub surface: Surface,
    pub surface_uri: Option<String>,
    pub list_query: Option<ListQueryConfig>,
    /// The single-row read of a resource template.
    pub read_query: Option<String>,
    pub variable_completions: NameMap<CompletionConfig>,
}

/// Two descriptions of the same binding.
pub open spec fn same_binding(a: OracleProfile, b: OracleProfile) -> bool {
    &&& a == (OracleProfile {
        compiled_params: a.compiled_params,
        variable_completions: a.variable_completions,
        ..b
    })
    &&& sources(a.compiled_params@) == sources(b.compiled_params@)
    &&& a.variable_completions.entries() == b.variable_completions.entries()
}

impl Clone for OracleProfile {
    fn clone(&self) -> (r: Self)
        ensures
            same_binding(r, *self),
            profile_ok(*self) ==> profile_ok(r),
    {
        let mut compiled_params: Vec<CompiledParam> = Vec::new();
        let mut i: usize = 0;
        while i < self.compiled_params.len()
            invariant
                i <= self.compiled_params.len(),
                compiled_params@.len() == i,
                forall|j: int|
                    0 <= j < i ==> (#[trigger] compiled_params@[j]) == self.compiled_params@[j],
            decreases self.compiled_params.len() - i,
        {
            compiled_params.push(self.compiled_params[i].clone());
            i += 1;
        }
        assert(sources(compiled_params@) =~= sources(self.compiled_params@));
        let variable_completions = self.variable_completions.clone();
        proof {
            let mine = self.variable_completions.entries();
            let theirs = variable_completions.entries();
            assert forall|j: int| 0 <= j < mine.len() implies #[trigger] theirs[j] == mine[j] by {
                assert(theirs[j].0 == mine[j].0);
            }
            assert(theirs =~= mine);
        }
        OracleProfile {
            manager: self.manager.clone(),
            pool_max_size: self.pool_max_size,
            dsn: self.dsn.clone(),
            query: self.query.clone(),
            compiled_params,
            op: self.op,
            operation: self.operation,
            catalog_filters: self.catalog_filters.clone(),
            size_limit: self.size_limit,
            timeout_ms: self.timeout_ms,
            surface: self.surface,
            surface_uri: self.surface_uri.clone(),
            list_query: self.list_query.clone(),
            read_query: self.read_query.clone(),
            variable_completions,
        }
    }
}

/// No completion has a fault.
pub open spec fn completions_ok(entries: Seq<(Seq<char>, CompletionConfig)>) -> bool {
    forall|i: int|
        0 <= i < entries.len() ==> completion_fault((#[trigger] entries[i]).0, entries[i].1) is None
}

/// What holds of every registered binding.
pub open spec fn profile_ok(p: OracleProfile) -> bool {
    &&& !blank(p.dsn@)
    &&& p.manager@.dsn == p.dsn@
    &&& !blank(p.manager@.username)
    &&& !begins_with(p.manager@.password, "cred://"@)
    &&& p.operation == OracleOperation::Query ==> !blank(p.query@) || !blank_opt(
        p.read_query.deep_view(),
    )
    &&& p.operation == OracleOperation::ListColumns ==> !blank_opt(
        p.catalog_filters.table.deep_view(),
    ) || !blank_opt(p.catalog_filters.table_arg.deep_view())
    &&& p.timeout_ms > 0
    &&& p.size_limit > 0
    &&& p.pool_max_size > 0
    &&& p.surface_uri matches Some(u) ==> p.surface == Surface::Resource && !blank(u@)
    &&& p.read_query matches Some(q) ==> p.surface == Surface::Resource && !blank(q@)
        && !contains_text(q@, "cred://"@)
    &&& p.list_query matches Some(l) ==> list_query_fault(l) is None
    &&& p.variable_completions.wf()
    &&& completions_ok(p.variable_completions.entries())
}

/// The binding that a spec describes.
pub open spec fn stored_from(p: OracleProfile, spec: OracleBackendSpec) -> bool {
    &&& p.manager@ == (LoginView {
        username: spec.username@,
        password: spec.password@,
        dsn: spec.dsn@,
    })
    &&& p.pool_max_size == spec.pool_max_size
    &&& p.dsn == spec.dsn
    &&& p.query == spec.query
    &&& sources(p.compiled_params@) == spec.params.deep_view()
    &&& p.op == spec.op
    &&& p.operation == spec.operation
    &&& p.catalog_filters == (CatalogFilterConfig {
        owner: spec.owner,
        table: spec.table,
        owner_arg: spec.owner_arg,
        table_arg: spec.table_arg,
    })
    &&& p.size_limit == spec.size_limit
    &&& p.timeout_ms == spec.timeout_ms
    &&& p.surface == spec.surface
    &&& p.surface_uri == spec.uri
    &&& p.list_query == spec.list_query
    &&& p.read_query == spec.read_query
    &&& p.variable_completions == spec.variable_completions
}

// ------------------------------------------------------------------ validation

/// What is wrong with a login, if anything is.
pub open spec fn password_fault(password: Seq<char>) -> Option<Seq<char>> {
    if begins_with(password, "cred://"@) {
        Some(
            "password must not be a cred:// URI — per-caller credentials are unsupported (the connection is one service identity); use ${env.X} / vault:// (resolved at config load) instead"@,
        )
    } else {
        None
    }
}

/// What is wrong with the operation of a spec, if anything is.
pub open spec fn operation_fault(spec: OracleBackendSpec) -> Option<Seq<char>> {
    match spec.operation {
        OracleOperation::Query => if blank(spec.query@) && blank_opt(spec.read_query.deep_view()) {
            Some(
                "query must not be empty (or set `read_query` for a resource_template read binding)"@,
            )
        } else {
            None
        },
        OracleOperation::ListColumns => if blank_opt(spec.table.deep_view()) && blank_opt(
            spec.table_arg.deep_view(),
        ) {
            Some(
                "operation: list_columns requires a `table` filter or a `table_arg` (the table whose columns to list)"@,
            )
        } else {
            None
        },
        OracleOperation::ListTables => None,
    }
}

/// What is wrong with the connection and the limits of a spec, if anything is;
/// the first fault counts.
pub open spec fn connection_fault(spec: OracleBackendSpec) -> Option<Seq<char>> {
    if blank(spec.dsn@) {
        Some("dsn must not be empty"@)
    } else if blank(spec.username@) {
        Some("username must not be empty"@)
    } else if operation_fault(spec) is Some {
        operation_fault(spec)
    } else if spec.timeout_ms == 0 {
        Some("timeout_ms must be greater than 0"@)
    } else if spec.size_limit == 0 {
        Some("size_limit must be greater than 0"@)
    } else if spec.pool_max_size == 0 {
        Some("pool_max_size must be greater than 0"@)
    } else {
        password_fault(spec.password@)
    }
}

/// What is wrong with the `uri` of a spec, if anything is.
pub open spec fn uri_fault(spec: OracleBackendSpec) -> Option<Seq<char>> {
    match spec.uri {
        Some(u) => if spec.surface != Surface::Resource {
            Some(
                "`uri` is only valid with `surface: resource` (this binding is `surface: "@
                    + spec.surface.word() + "`)"@,
            )
        } else if blank(u@) {
            Some("`uri` must not be empty"@)
        } else {
            None
        },
        None => None,
    }
}

/// What is wrong with the `read_query` of a spec, if anything is. Whether it
/// only reads is the guard's verdict.
pub open spec fn read_query_fault(
    spec: OracleBackendSpec,
    read_only: Result<(), String>,
) -> Option<Seq<char>> {
    match spec.read_query {
        Some(q) => if blank(q@) {
            Some("`read_query` must not be empty"@)
        } else if spec.surface != Surface::Resource {
            Some(
                "`read_query` is only valid with `surface: resource` (this binding is `surface: "@
                    + spec.surface.word() + "`)"@,
            )
        } else if bare_cred_fault("read_query"@, q@) is Some {
            bare_cred_fault("read_query"@, q@)
        } else {
            match read_only {
                Ok(_) => None,
                Err(e) => Some(e@),
            }
        },
        None => None,
    }
}

/// The first fault of a list of completions.
pub open spec fn completions_fault(entries: Seq<(Seq<char>, CompletionConfig)>) -> Option<Seq<char>>
    decreases entries.len(),
{
    if entries.len() == 0 {
        None
    } else if completion_fault(entries[0].0, entries[0].1) is Some {
        completion_fault(entries[0].0, entries[0].1)
    } else {
        completions_fault(entries.skip(1))
    }
}

/// What the outside says of a spec: whether its `read_query` only reads,
/// whether its parameters compile, and whether its pool can be built.
#[derive(Debug)]
pub struct Verdicts {
    pub read_only: Result<(), String>,
    pub params: Result<(), String>,
    pub pool: Result<(), String>,
}

/// What is wrong with the parameters of a spec, if anything is: the verdict on
/// them. A catalog operation ignores its parameters, and so the verdict.
pub open spec fn params_fault(
    spec: OracleBackendSpec,
    verdict: Result<(), String>,
) -> Option<Seq<char>> {
    match verdict {
        Err(e) if !spec.operation.catalog() => Some(e@),
        _ => None,
    }
}

/// Why a spec is refused, if it is; the first fault counts.
pub open spec fn register_fault(spec: OracleBackendSpec, verdicts: Verdicts) -> Option<Seq<char>> {
    let listing = match spec.list_query {
        Some(l) => list_query_fault(l),
        None => None,
    };
    if connection_fault(spec) is Some {
        connection_fault(spec)
    } else if uri_fault(spec) is Some {
        uri_fault(spec)
    } else if read_query_fault(spec, verdicts.read_only) is Some {
        read_query_fault(spec, verdicts.read_only)
    } else if listing is Some {
        listing
    } else if completions_fault(spec.variable_completions.entries()) is Some {
        completions_fault(spec.variable_completions.entries())
    } else if params_fault(spec, verdicts.params) is Some {
        params_fault(spec, verdicts.params)
    } else {
        match verdicts.pool {
            Err(e) => Some(e@),
            Ok(_) => None,
        }
    }
}

/// Refuse a per-caller credential as the login password: the connection is one
/// service identity.
pub fn check_password(password: &str) -> (r: Result<(), String>)
    ensures
        reports(r, password_fault(password@)),
{
    if starts_with(password, "cred://") {
        return Err(
            "password must not be a cred:// URI — per-caller credentials are unsupported (the connection is one service identity); use ${env.X} / vault:// (resolved at config load) instead".to_owned(),
        );
    }
    Ok(())
}

fn check_operation(spec: &OracleBackendSpec) -> (r: Result<(), String>)
    ensures
        reports(r, operation_fault(*spec)),
{
    match spec.operation {
        OracleOperation::Query => {
            if is_blank(spec.query.as_str()) && is_blank_opt(&spec.read_query) {
                return Err(
                    "query must not be empty (or set `read_query` for a resource_template read binding)".to_owned(),
                );
            }
        },
        OracleOperation::ListColumns => {
            if is_blank_opt(&spec.table) && is_blank_opt(&spec.table_arg) {
                return Err(
                    "operation: list_columns requires a `table` filter or a `table_arg` (the table whose columns to list)".to_owned(),
                );
            }
        },
        OracleOperation::ListTables => {},
    }
    Ok(())
}

fn check_connection(spec: &OracleBackendSpec) -> (r: Result<(), String>)
    ensures
        reports(r, connection_fault(*spec)),
{
    if is_blank(spec.dsn.as_str()) {
        return Err("dsn must not be empty".to_owned());
    }
    if is_blank(spec.username.as_str()) {
        return Err("username must not be empty".to_owned());
    }
    if let Err(e) = check_operation(spec) {
        return Err(e);
    }
    if spec.timeout_ms == 0 {
        return Err("timeout_ms must be greater than 0".to_owned());
    }
    if spec.size_limit == 0 {
        return Err("size_limit must be greater than 0".to_owned());
    }
    if spec.pool_max_size == 0 {
        return Err("pool_max_size must be greater than 0".to_owned());
    }
    check_password(spec.password.as_str())
}

fn check_uri(spec: &OracleBackendSpec) -> (r: Result<(), String>)
    ensures
        reports(r, uri_fault(*spec)),
{
    if let Some(u) = &spec.uri {
        if spec.surface != Surface::Resource {
            let mut message =
                "`uri` is only valid with `surface: resource` (this binding is `surface: ".to_owned();
            message.append(spec.surface.as_str());
            message.append("`)");
            return Err(message);
        }
        if is_blank(u.as_str()) {
            return Err("`uri` must not be empty".to_owned());
        }
    }
    Ok(())
}

fn check_read_query(spec: &OracleBackendSpec, read_only: Result<(), String>) -> (r: Result<
    (),
    String,
>)
    ensures
        reports(r, read_query_fault(*spec, read_only)),
{
    if let Some(q) = &spec.read_query {
        if is_blank(q.as_str()) {
            return Err("`read_query` must not be empty".to_owned());
        }
        if spec.surface != Surface::Resource {
            let mut message =
                "`read_query` is only valid with `surface: resource` (this binding is `surface: ".to_owned();
            message.append(spec.surface.as_str());
            message.append("`)");
            return Err(message);
        }
        if let Err(e) = reject_bare_cred("read_query", q.as_str()) {
            return Err(e);
        }
        return read_only;
    }
    Ok(())
}

fn check_completions(completions: &NameMap<CompletionConfig>) -> (r: Result<(), String>)
    ensures
        reports(r, completions_fault(completions.entries())),
        r is Ok ==> completions_ok(completions.entries()),
{
    let ghost all = completions.entries();
    let mut i: usize = 0;
    assert(all.skip(0) =~= all);
    while i < completions.len()
        invariant
            all == completions.entries(),
            i <= all.len(),
            completions_fault(all) == completions_fault(all.skip(i as int)),
            forall|j: int|
                0 <= j < i ==> completion_fault((#[trigger] all[j]).0, all[j].1) is None,
        decreases all.len() - i,
    {
        assert(all.skip(i as int)[0] == all[i as int]);
        assert(all.skip(i as int).skip(1) =~= all.skip(i + 1));
        if let Err(e) = validate_completion(completions.name_at(i), completions.value_at(i)) {
            return Err(e);
        }
        i += 1;
    }
    Ok(())
}

fn check_spec(spec: &OracleBackendSpec, verdicts: Verdicts) -> (r: Result<(), String>)
    ensures
        reports(r, register_fault(*spec, verdicts)),
        r is Ok ==> completions_ok(spec.variable_completions.entries()),
{
    if let Err(e) = check_connection(spec) {
        return Err(e);
    }
    if let Err(e) = check_uri(spec) {
        return Err(e);
    }
    if let Err(e) = check_read_query(spec, verdicts.read_only) {
        return Err(e);
    }
    if let Some(l) = &spec.list_query {
        if let Err(e) = validate_list_query(l) {
            return Err(e);
        }
    }
    if let Err(e) = check_completions(&spec.variable_completions) {
        return Err(e);
    }
    if !spec.operation.is_catalog() {
        if let Err(e) = verdicts.params {
            return Err(e);
        }
    }
    verdicts.pool
}

fn name_params(params: Vec<String>) -> (r: Vec<CompiledParam>)
    ensures
        sources(r@) == params.deep_view(),
{
    let ghost all = params.deep_view();
    let ghost items = params@;
    let mut out: Vec<CompiledParam> = Vec::new();
    for param in it: params
        invariant
            it.seq() == items,
            all.len() == items.len(),
            forall|j: int| 0 <= j < items.len() ==> (#[trigger] items[j])@ == all[j],
            out@.len() == it.index(),
            forall|j: int| 0 <= j < out@.len() ==> (#[trigger] out@[j]).source@ == all[j],
    {
        assert(param@ == all[out@.len() as int]);
        out.push(CompiledParam { source: param });
    }
    assert(sources(out@) =~= all);
    out
}

// ---------------------------------------------------------------------- plugin

/// The plugin that serves bindings of kind `oracle`.
pub struct OracleBackendPlugin {
    manifest: PluginManifest,
    profiles: NameMap<OracleProfile>,
}

impl OracleBackendPlugin {
    /// The registered bindings by name.
    pub closed spec fn view(&self) -> Map<Seq<char>, OracleProfile> {
        self.profiles@
    }

    /// The plugin says what it is, and every binding passed the checks.
    pub closed spec fn wf(&self) -> bool {
        &&& self.profiles.wf()
        &&& self.manifest.id@ == "dev.mcpg.backend.oracle"@
        &&& self.manifest.name@ == "Oracle Binding"@
        &&& self.manifest.plugin_class == PluginClass::Backend
        &&& forall|name: Seq<char>| #[trigger]
            self.profiles@.dom().contains(name) ==> profile_ok(self.profiles@[name])
    }

    /// Every registered binding passed the checks of registration.
    pub proof fn lemma_profiles_ok(&self, name: Seq<char>)
        requires
            self.wf(),
            self@.dom().contains(name),
        ensures
            profile_ok(self@[name]),
    {
    }

    /// A plugin without bindings.
    #[must_use]
    pub fn new() -> (r: Self)
        ensures
            r.wf(),
            r@ == Map::<Seq<char>, OracleProfile>::empty(),
    {
        OracleBackendPlugin {
            manifest: PluginManifest {
                id: "dev.mcpg.backend.oracle".to_owned(),
                name: "Oracle Binding".to_owned(),
                plugin_class: PluginClass::Backend,
            },
            profiles: NameMap::new(),
        }
    }

    /// What the plugin says of itself.
    pub fn manifest(&self) -> (r: &PluginManifest)
        requires
            self.wf(),
        ensures
            r.id@ == "dev.mcpg.backend.oracle"@,
            r.name@ == "Oracle Binding"@,
            r.plugin_class == PluginClass::Backend,
    {
        &self.manifest
    }

    /// The kind of bindings that the plugin serves.
    pub fn kind(&self) -> (r: &'static str)
        ensures
            r@ == "oracle"@,
    {
        "oracle"
    }

    /// The binding of a name.
    pub fn profile(&self, backend_name: &str) -> (r: Option<&OracleProfile>)
        requires
            self.wf(),
        ensures
            match r {
                Some(p) => self@.dom().contains(backend_name@) && self@[backend_name@] == *p
                    && profile_ok(*p),
                None => !self@.dom().contains(backend_name@),
            },
    {
        self.profiles.get(backend_name)
    }

    /// Register a binding under a name, in place of what was there before. A
    /// spec with a fault is refused and changes nothing.
    pub fn register_profile(
        &mut self,
        backend_name: &str,
        spec: OracleBackendSpec,
        verdicts: Verdicts,
    ) -> (r: Result<(), BackendError>)
        requires
            old(self).wf(),
            spec.variable_completions.wf(),
        ensures
            final(self).wf(),
            match register_fault(spec, verdicts) {
                Some(fault) => {
                    &&& r matches Err(BackendError::InvalidSpec { message }) && message@ == fault
                    &&& final(self)@ == old(self)@
                },
                None => {
                    &&& r is Ok
                    &&& final(self)@ == old(self)@.insert(
                        backend_name@,
                        final(self)@[backend_name@],
                    )
                    &&& stored_from(final(self)@[backend_name@], spec)
                },
            },
    {
        if let Err(message) = check_spec(&spec, verdicts) {
            return Err(BackendError::InvalidSpec { message });
        }
        let ghost given = spec;
        let profile = OracleProfile {
            manager: OracleManager::new(spec.username, spec.password, spec.dsn.clone()),
            pool_max_size: spec.pool_max_size,
            dsn: spec.dsn,
            query: spec.query,
            compiled_params: name_params(spec.params),
            op: spec.op,
            operation: spec.operation,
            catalog_filters: CatalogFilterConfig {
                owner: spec.owner,
                table: spec.table,
                owner_arg: spec.owner_arg,
                table_arg: spec.table_arg,
            },
            size_limit: spec.size_limit,
            timeout_ms: spec.timeout_ms,
            surface: spec.surface,
            surface_uri: spec.uri,
            list_query: spec.list_query,
            read_query: spec.read_query,
            variable_completions: spec.variable_completions,
        };
        assert(stored_from(profile, given));
        assert(profile_ok(profile));
        self.profiles.insert(backend_name.to_owned(), profile);
        Ok(())
    }
}

impl Default for OracleBackendPlugin {
    fn default() -> (r: Self)
        ensures
            r.wf(),
            r@ == Map::<Seq<char>, OracleProfile>::empty(),
    {
        OracleBackendPlugin::new()
    }
}

// ----------------------------------------------------------------------- laws

/// A catalog operation is registered without regard to the statement, the op
/// and the parameters: no such spec is refused for what they hold, nor for the
/// verdict on them.
pub proof fn lemma_catalog_spec_ignores_statement(
    spec: OracleBackendSpec,
    verdicts: Verdicts,
    query: String,
    op: OracleOp,
    params: Vec<String>,
    verdict: Result<(), String>,
)
    requires
        spec.operation.catalog(),
    ensures
        register_fault(
            (OracleBackendSpec { query, op, params, ..spec }),
            (Verdicts { params: verdict, ..verdicts }),
        ) == register_fault(spec, verdicts),
{
}

/// Registration is fail-closed: what any of the checks finds, be it the guard's
/// verdict on a `read_query`, that on the parameters of a query, or the pool's,
/// refuses the spec.
pub proof fn lemma_any_fault_refuses(spec: OracleBackendSpec, verdicts: Verdicts)
    requires
        ({
            ||| connection_fault(spec) is Some
            ||| uri_fault(spec) is Some
            ||| read_query_fault(spec, verdicts.read_only) is Some
            ||| spec.list_query matches Some(l) && list_query_fault(l) is Some
            ||| completions_fault(spec.variable_completions.entries()) is Some
            ||| !spec.operation.catalog() && verdicts.params is Err
            ||| verdicts.pool is Err
        }),
    ensures
        register_fault(spec, verdicts) is Some,
{
}

} // verus!
