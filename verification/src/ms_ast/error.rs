//! Errors of the knowledge-card syntax tree.

use vstd::prelude::*;

verus! {

/// Errors of parsing and tree manipulation.
#[derive(Debug, PartialEq, Eq)]
pub enum MSError {
    /// Markdown could not be parsed into a tree.
    ParseError(String),
    /// A tree operation was applied to a node that does not support it.
    InvalidOperation(String),
}

/// Result of parsing and tree manipulation.
pub type MSResult<T> = Result<T, MSError>;

} // verus!
