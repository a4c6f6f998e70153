//! Operator-facing spec of an Oracle binding.
//!
//! One binding is one parameterised statement, served as one MCP tool, resource
//! or prompt. The connection and the statement both live on the spec.

use vstd::prelude::*;
use vstd::string::*;

use crate::ordered::NameMap;
use crate::sql::{find_piece_end, lemma_next_piece, lemma_pieces_do_not_overlap, piece_at};
use crate::surface::Surface;
use crate::text::{
    blank, chars_occur_at, chars_of, decimal, is_blank, is_digit, occurs_at, trim, trimmed,
    u64_text,
};

verus! {

/// What the statement does: selects rows, or mutates and reports a count.
#[derive(Debug, Clone, Copy, PartialEq, Eq, Structural)]
pub enum OracleOp {
    /// `SELECT`-style: return the matched rows.
    Query,
    /// `INSERT` / `UPDATE` / `DELETE` / DDL / PL-SQL: return rows-affected.
    Execute,
}

impl Default for OracleOp {
    fn default() -> (r: Self)
        ensures
            r == OracleOp::Query,
    {
        OracleOp::Query
    }
}

impl OracleOp {
    /// The word that stands for the op in configuration and envelopes.
    pub open spec fn word(self) -> Seq<char> {
        match self {
            OracleOp::Query => "query"@,
            OracleOp::Execute => "execute"@,
        }
    }

    pub fn as_str(self) -> (r: &'static str)
        ensures
            r@ == self.word(),
    {
        match self {
            OracleOp::Query => "query",
            OracleOp::Execute => "execute",
        }
    }
}

/// What the binding does. `query` runs the operator-fixed statement; the
/// catalog operations read Oracle's data dictionary and ignore the statement,
/// its op and its params.
#[derive(Debug, Clone, Copy, PartialEq, Eq, Structural)]
pub enum OracleOperation {
    /// Run the operator-fixed `query` statement with `:1, :2, …` binds.
    Query,
    /// Discover tables via `ALL_TABLES`.
    ListTables,
    /// Discover a table's columns via `ALL_TAB_COLUMNS`.
    ListColumns,
}

impl Default for OracleOperation {
    fn default() -> (r: Self)
        ensures
            r == OracleOperation::Query,
    {
        OracleOperation::Query
    }
}

impl OracleOperation {
    /// The word that stands for the operation in configuration and envelopes.
    pub open spec fn word(self) -> Seq<char> {
        match self {
            OracleOperation::Query => "query"@,
            OracleOperation::ListTables => "list_tables"@,
            OracleOperation::ListColumns => "list_columns"@,
        }
    }

    /// Reads the data dictionary.
    pub open spec fn catalog(self) -> bool {
        self != OracleOperation::Query
    }

    #[must_use]
    pub fn as_str(self) -> (r: &'static str)
        ensures
            r@ == self.word(),
    {
        match self {
            OracleOperation::Query => "query",
            OracleOperation::ListTables => "list_tables",
            OracleOperation::ListColumns => "list_columns",
        }
    }

    /// Whether this operation reads the data dictionary.
    #[must_use]
    pub fn is_catalog(self) -> (r: bool)
        ensures
            r == self.catalog(),
    {
        matches!(self, OracleOperation::ListTables | OracleOperation::ListColumns)
    }
}

/// The spec of one binding, as the operator writes it.
#[derive(Debug, Clone)]
pub struct OracleBackendSpec {
    /// Easy Connect string or TNS alias.
    pub dsn: String,
    /// Database user.
    pub username: String,
    /// Login password, resolved at config load.
    pub password: String,
    /// What the binding does.
    pub operation: OracleOperation,
    /// The statement for `operation: query`.
    pub query: String,
    /// Statement kind.
    pub op: OracleOp,
    /// Static owner filter of a catalog operation.
    pub owner: Option<String>,
    /// Static table filter of a catalog operation.
    pub table: Option<String>,
    /// Tool argument that supplies the owner filter.
    pub owner_arg: Option<String>,
    /// Tool argument that supplies the table filter.
    pub table_arg: Option<String>,
    /// Ordered CEL expressions; `params[i]` is bound to `:{i+1}`.
    pub params: Vec<String>,
    /// Cap on returned rows.
    pub size_limit: usize,
    /// Per-call timeout in milliseconds.
    pub timeout_ms: u64,
    /// Maximum pooled connections.
    pub pool_max_size: usize,
    /// MCP surface that the binding serves.
    pub surface: Surface,
    /// Static resource URI.
    pub uri: Option<String>,
    /// Listing statement for `resources/list`.
    pub list_query: Option<ListQueryConfig>,
    /// Per-`{id}` single-row read of a resource template.
    pub read_query: Option<String>,
    /// Completion statements by template variable.
    pub variable_completions: NameMap<CompletionConfig>,
}

/// Pagination strategy of a listing.
#[derive(Debug, Clone, Copy, PartialEq, Eq, Structural)]
pub enum ListQueryMode {
    /// `:1` is the keyset cursor (NULL on the first page), `:2` the page size.
    Keyset,
    /// `:1` is the page size, `:2` the offset.
    Offset,
}

impl Default for ListQueryMode {
    fn default() -> (r: Self)
        ensures
            r == ListQueryMode::Keyset,
    {
        ListQueryMode::Keyset
    }
}

/// Operator-fixed listing statement and its pagination.
#[derive(Debug, PartialEq)]
pub struct ListQueryConfig {
    /// `SELECT` that returns one row per resource.
    pub sql: String,
    /// Pagination mode.
    pub mode: ListQueryMode,
    /// Column that the keyset cursor tracks.
    pub cursor_column: Option<String>,
    /// Rows per page.
    pub page_size: u64,
}

impl Clone for ListQueryConfig {
    fn clone(&self) -> (r: Self)
        ensures
            r == *self,
    {
        ListQueryConfig {
            sql: self.sql.clone(),
            mode: self.mode,
            cursor_column: self.cursor_column.clone(),
            page_size: self.page_size,
        }
    }
}

/// Operator-fixed completion statement of one template variable.
#[derive(Debug, PartialEq)]
pub struct CompletionConfig {
    /// Statement whose `:1` is bound to the typed prefix.
    pub sql: String,
    /// Cap on returned candidates.
    pub max_results: Option<u32>,
}

impl Clone for CompletionConfig {
    fn clone(&self) -> (r: Self)
        ensures
            r == *self,
    {
        CompletionConfig { sql: self.sql.clone(), max_results: self.max_results }
    }
}

/// The row cap where the spec names none.
pub fn default_size_limit() -> (r: usize)
    ensures
        r == 100,
{
    100
}

/// The per-call timeout where the spec names none.
pub fn default_timeout_ms() -> (r: u64)
    ensures
        r == 10_000,
{
    10_000
}

/// The pool size where the spec names none.
pub fn default_pool_max_size() -> (r: usize)
    ensures
        r == 4,
{
    4
}

/// The page size where the listing names none.
pub fn default_list_page_size() -> (r: u64)
    ensures
        r == 100,
{
    100
}

/// What is wrong with a listing, if anything is; the first fault counts.
pub open spec fn list_query_fault(cfg: ListQueryConfig) -> Option<Seq<char>> {
    let column = match cfg.cursor_column {
        Some(c) => trimmed(c@),
        None => Seq::<char>::empty(),
    };
    if blank(cfg.sql@) {
        Some("list_query.sql must not be empty"@)
    } else if !(1 <= cfg.page_size <= 1_000) {
        Some(
            "list_query.page_size ("@ + decimal(cfg.page_size as nat) + ") must be in 1..=1000"@,
        )
    } else if cfg.mode == ListQueryMode::Keyset && column.len() == 0 {
        Some("list_query.cursor_column is required for mode: keyset"@)
    } else if cfg.mode == ListQueryMode::Keyset && !safe_sql_identifier(column) {
        Some("list_query.cursor_column '"@ + column + "' is not a safe SQL identifier"@)
    } else {
        None
    }
}

/// A verdict that reports the fault, or passes where there is none.
pub open spec fn reports(r: Result<(), String>, fault: Option<Seq<char>>) -> bool {
    match r {
        Ok(_) => fault is None,
        Err(e) => fault == Some(e@),
    }
}

/// Fail-closed validation of an operator-fixed listing.
pub fn validate_list_query(cfg: &ListQueryConfig) -> (r: Result<(), String>)
    ensures
        reports(r, list_query_fault(*cfg)),
{
    if is_blank(cfg.sql.as_str()) {
        return Err("list_query.sql must not be empty".to_owned());
    }
    if cfg.page_size == 0 || cfg.page_size > 1_000 {
        let mut message = "list_query.page_size (".to_owned();
        message.append(u64_text(cfg.page_size).as_str());
        message.append(") must be in 1..=1000");
        return Err(message);
    }
    if cfg.mode == ListQueryMode::Keyset {
        let column = match &cfg.cursor_column {
            Some(c) => trim(c.as_str()),
            None => {
                return Err("list_query.cursor_column is required for mode: keyset".to_owned());
            },
        };
        if column.is_empty() {
            return Err("list_query.cursor_column is required for mode: keyset".to_owned());
        }
        if !is_safe_sql_identifier(column) {
            let mut message = "list_query.cursor_column '".to_owned();
            message.append(column);
            message.append("' is not a safe SQL identifier");
            return Err(message);
        }
    }
    Ok(())
}

/// The `:1` placeholder stands at position `i`, outside quotes and comments;
/// `:10` is another placeholder.
pub open spec fn prefix_placeholder_at(sql: Seq<char>, i: int) -> bool {
    &&& piece_at(sql, i)
    &&& occurs_at(sql, ":1"@, i)
    &&& !(i + 2 < sql.len() && is_digit(sql[i + 2]))
}

/// The statement references exactly one `:1` placeholder.
pub open spec fn has_single_prefix_placeholder(sql: Seq<char>) -> bool {
    exists|i: int| #[trigger]
        prefix_placeholder_at(sql, i) && forall|j: int| #[trigger]
            prefix_placeholder_at(sql, j) ==> j == i
}

/// Whether a statement references exactly one `:1` placeholder.
fn check_single_prefix_placeholder(sql: &str) -> (r: bool)
    ensures
        r == has_single_prefix_placeholder(sql@),
{
    proof {
        reveal_strlit(":1");
    }
    let chars = chars_of(sql);
    let mark = chars_of(":1");
    let mut found: Option<usize> = None;
    let mut i: usize = 0;
    while i < chars.len()
        invariant
            chars@ == sql@,
            mark@ == ":1"@,
            mark@.len() == 2,
            i <= chars.len(),
            piece_at(sql@, i as int),
            match found {
                Some(f) => f < i && prefix_placeholder_at(sql@, f as int) && forall|j: int|
                    j < i && #[trigger] prefix_placeholder_at(sql@, j) ==> j == f,
                None => forall|j: int| j < i ==> !#[trigger] prefix_placeholder_at(sql@, j),
            },
        decreases chars.len() - i,
    {
        let is_mark = chars_occur_at(&chars, &mark, i);
        if is_mark && !(chars.len() - i > 2 && '0' <= chars[i + 2] && chars[i + 2] <= '9') {
            assert(prefix_placeholder_at(sql@, i as int));
            match found {
                Some(f) => {
                    assert(prefix_placeholder_at(sql@, f as int));
                    return false;
                },
                None => {
                    found = Some(i);
                },
            }
        }
        let end: usize = find_piece_end(&chars, i);
        proof {
            assert forall|j: int| i < j < end implies !#[trigger] prefix_placeholder_at(sql@, j) by {
                lemma_pieces_do_not_overlap(sql@, i as int, j);
            }
            lemma_next_piece(sql@, i as int);
        }
        i = end;
    }
    found.is_some()
}

/// What is wrong with a completion, if anything is; the first fault counts.
pub open spec fn completion_fault(name: Seq<char>, cfg: CompletionConfig) -> Option<Seq<char>> {
    if blank(cfg.sql@) {
        Some("variable_completions."@ + name + ".sql must not be empty"@)
    } else if !has_single_prefix_placeholder(cfg.sql@) {
        Some(
            "variable_completions."@ + name
                + ".sql must reference the `:1` placeholder (bound to the typed prefix)"@,
        )
    } else {
        None
    }
}

/// Fail-closed validation of an operator-fixed completion: a statement that
/// references exactly one `:1` placeholder, the bound prefix.
pub fn validate_completion(name: &str, cfg: &CompletionConfig) -> (r: Result<(), String>)
    ensures
        reports(r, completion_fault(name@, *cfg)),
{
    if is_blank(cfg.sql.as_str()) {
        let mut message = "variable_completions.".to_owned();
        message.append(name);
        message.append(".sql must not be empty");
        return Err(message);
    }
    if !check_single_prefix_placeholder(cfg.sql.as_str()) {
        let mut message = "variable_completions.".to_owned();
        message.append(name);
        message.append(".sql must reference the `:1` placeholder (bound to the typed prefix)");
        return Err(message);
    }
    Ok(())
}

/// An ASCII letter.
pub open spec fn ascii_letter(c: char) -> bool {
    'a' <= c <= 'z' || 'A' <= c <= 'Z'
}

/// An ASCII letter, digit or underscore.
pub open spec fn word_char(c: char) -> bool {
    ascii_letter(c) || '0' <= c <= '9' || c == '_'
}

/// `[A-Za-z_][A-Za-z0-9_]*`.
pub open spec fn safe_sql_identifier(s: Seq<char>) -> bool {
    &&& s.len() > 0
    &&& ascii_letter(s[0]) || s[0] == '_'
    &&& forall|i: int| 0 <= i < s.len() ==> word_char(#[trigger] s[i])
}

/// Whether `c` is an ASCII letter, digit or underscore.
pub fn is_word_char(c: char) -> (r: bool)
    ensures
        r == word_char(c),
{
    ('a' <= c && c <= 'z') || ('A' <= c && c <= 'Z') || ('0' <= c && c <= '9') || c == '_'
}

/// Whether `s` is a safe SQL identifier, `[A-Za-z_][A-Za-z0-9_]*`.
pub fn is_safe_sql_identifier(s: &str) -> (r: bool)
    ensures
        r == safe_sql_identifier(s@),
{
    let chars = chars_of(s);
    if chars.len() == 0 {
        return false;
    }
    let first = chars[0];
    if !(('a' <= first && first <= 'z') || ('A' <= first && first <= 'Z') || first == '_') {
        return false;
    }
    let mut i: usize = 0;
    while i < chars.len()
        invariant
            chars@ == s@,
            i <= chars.len(),
            forall|j: int| 0 <= j < i ==> word_char(#[trigger] s@[j]),
        decreases chars.len() - i,
    {
        if !is_word_char(chars[i]) {
            return false;
        }
        i += 1;
    }
    true
}

} // verus!
