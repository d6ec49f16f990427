//! Error model shared by every catalog operation.
//!
//! Expected failures (not found, conflict) are ordinary results. Driver
//! failures are translated into `BackendError` at the pool and transaction
//! boundary; callers above the catalog never see raw driver error types.

use vstd::prelude::*;

verus! {

/// The kind of a catalog failure.
#[derive(Clone, Copy, Debug, PartialEq, Eq, Structural)]
pub enum ErrorKind {
    /// Entity absent or excluded by a visibility rule.
    NotFound,
    /// Uniqueness violation, non-empty namespace drop, or an
    /// optimistic-concurrency mismatch.
    Conflict,
    /// Operation against an inactive warehouse, or staged/deleted entity
    /// misuse.
    InvalidState,
    /// Pool checkout waited longer than the configured deadline.
    PoolTimeout,
    /// Underlying driver failure, with the original cause preserved.
    BackendError,
    /// Malformed connection descriptor, detected at startup.
    ConfigurationError,
}

/// A failure of a catalog operation: a kind, a human-readable message, and,
/// for backend failures, the rendered text of the original driver error so
/// that the cause is never silently dropped.
#[derive(Clone, Debug)]
pub struct ErrorModel {
    pub kind: ErrorKind,
    pub message: String,
    pub cause: Option<String>,
}

impl ErrorModel {
    /// An error without an underlying driver cause.
    pub fn new(kind: ErrorKind, message: String) -> (r: ErrorModel)
        ensures
            r.kind == kind,
            r.message == message,
            r.cause is None,
    {
        ErrorModel { kind, message, cause: None }
    }

    /// A not-found error: the entity is absent or excluded by a visibility
    /// rule.
    pub fn not_found(message: String) -> (r: ErrorModel)
        ensures
            r.kind == ErrorKind::NotFound,
            r.message == message,
    {
        ErrorModel { kind: ErrorKind::NotFound, message, cause: None }
    }

    /// A conflict error: uniqueness violation, non-empty namespace drop, or
    /// a stale optimistic-concurrency token.
    pub fn conflict(message: String) -> (r: ErrorModel)
        ensures
            r.kind == ErrorKind::Conflict,
            r.message == message,
    {
        ErrorModel { kind: ErrorKind::Conflict, message, cause: None }
    }

    /// An invalid-state error: the operation needs an Active warehouse or
    /// misuses a staged/deleted entity.
    pub fn invalid_state(message: String) -> (r: ErrorModel)
        ensures
            r.kind == ErrorKind::InvalidState,
            r.message == message,
    {
        ErrorModel { kind: ErrorKind::InvalidState, message, cause: None }
    }

    /// A backend error that keeps the driver's own text as its cause.
    pub fn backend(message: String, cause: String) -> (r: ErrorModel)
        ensures
            r.kind == ErrorKind::BackendError,
            r.message == message,
            r.cause == Some(cause),
    {
        ErrorModel { kind: ErrorKind::BackendError, message, cause: Some(cause) }
    }
}

} // verus!
