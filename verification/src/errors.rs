//! The error taxonomy: construction errors, which are produced before any
//! statement leaves the library, connection errors, and the annotation that
//! execution errors carry back to the caller.

use vstd::prelude::*;

verus! {

/// A construction error: detected locally, before any statement text exists.
#[derive(Debug, Clone, PartialEq)]
pub enum BuildError {
    /// An identifier failed the allow-list; carries the rejected text.
    InvalidIdentifier(String),
    /// An insert was requested with no documents.
    EmptyBatch,
    /// An update was requested with no assignments.
    EmptyAssignments,
    /// A document in an insert batch has a key set different from the first.
    MismatchedBatchKeys,
    /// A value with no native encoding was supplied as a bind parameter;
    /// carries the original native type name.
    UnencodableValue(String),
}

/// A connection-lifecycle error.
#[derive(Debug, Clone, PartialEq)]
pub enum ConnError {
    /// `connect` was called while a pool was already installed.
    AlreadyConnected,
    /// An operation needed a pool and none was installed.
    NotConnected,
    /// Opening the pool failed; carries the engine's message.
    ConnectFailed(String),
    /// Closing the pool failed; carries the engine's message.
    DisconnectFailed(String),
}

/// The statement kind, used to annotate execution errors.
#[derive(Debug, Clone, Copy, PartialEq, Eq, Structural)]
pub enum Action {
    Select,
    Insert,
    Update,
    Delete,
}

/// An engine error, passed through verbatim and annotated with the action
/// and table it arose from.
#[derive(Debug, Clone, PartialEq)]
pub struct ExecError {
    pub action: Action,
    pub table: String,
    pub cause: String,
}

/// Attaches the action and table to an engine error's message.
pub fn annotate_exec_error(action: Action, table: String, cause: String) -> (r: ExecError)
    ensures
        r.action == action,
        r.table == table,
        r.cause == cause,
{
    ExecError { action, table, cause }
}

} // verus!
