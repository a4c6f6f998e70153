//! What the library promises of its operations as a whole: each law relates the
//! inputs of an operation to its result, whatever way the result is come by.

pub mod answers;
pub mod binding;
pub mod catalog;
pub mod errors;
pub mod listing;
pub mod models;
pub mod registration;
pub mod requests;
pub mod rows;
pub mod schemas;
pub mod texts;
