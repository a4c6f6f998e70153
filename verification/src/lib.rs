//! The decisions of an Oracle Database backend: what is refused at registration,
//! which statement a call runs and with which binds, how rows become JSON, and
//! what the caller is answered.
//!
//! A statement is fixed by the operator. What a caller supplies is bound to its
//! placeholders and never becomes part of its text.

pub mod audit;
pub mod call;
pub mod catalog;
pub mod codec;
pub mod envelope;
pub mod json;
pub mod laws;
pub mod numeral;
pub mod oracle;
pub mod ordered;
pub mod params;
pub mod plugin;
pub mod resources;
pub mod schema;
pub mod sql;
pub mod surface;
pub mod text;
pub mod types;
pub mod watch;

pub use crate::plugin::OracleBackendPlugin;
pub use crate::types::{
    validate_completion, validate_list_query, CompletionConfig as OracleCompletionConfig,
    ListQueryConfig as OracleListQueryConfig, ListQueryMode, OracleBackendSpec, OracleOp,
    OracleOperation,
};
