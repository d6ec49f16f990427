//! Translation of driver and pool failures into the library's error model,
//! at the pool/transaction boundary: callers above the catalog never see
//! raw driver error types, and the original cause is never silently
//! dropped.

use vstd::prelude::*;
use crate::error::{ErrorKind, ErrorModel};
use crate::outside::{classify_pool_error, describe_db_error, PoolFailure};

verus! {

/// Map a classified pool failure: a timeout fails distinctly with
/// `PoolTimeout`; everything else is a backend error carrying the driver's
/// own text where there is one.
pub fn pool_failure_to_error_model(f: PoolFailure, message: String) -> (r: ErrorModel)
    ensures
        r.message == message,
        match f {
            PoolFailure::Timeout => r.kind == ErrorKind::PoolTimeout && r.cause is None,
            PoolFailure::Backend { cause } => r.kind == ErrorKind::BackendError && r.cause
                == Some(cause),
            PoolFailure::Closed => r.kind == ErrorKind::BackendError && r.cause is Some,
            PoolFailure::NoRuntime => r.kind == ErrorKind::BackendError && r.cause is Some,
            PoolFailure::PostCreateHook { cause } => r.kind == ErrorKind::BackendError && r.cause
                == Some(cause),
        },
{
    match f {
        PoolFailure::Timeout => ErrorModel::new(ErrorKind::PoolTimeout, message),
        PoolFailure::Backend { cause } => ErrorModel::backend(message, cause),
        PoolFailure::Closed => ErrorModel::backend(message, "pool has been closed".to_owned()),
        PoolFailure::NoRuntime => ErrorModel::backend(
            message,
            "no async runtime was specified for the pool".to_owned(),
        ),
        PoolFailure::PostCreateHook { cause } => ErrorModel::backend(message, cause),
    }
}

/// Translate a raw pool error. Whatever the driver reported, the result
/// carries the caller's message, is a pool timeout or a backend error, and
/// a backend error keeps a cause.
pub fn pool_error_into_error_model(
    e: deadpool::managed::PoolError<tiberius::error::Error>,
    message: String,
) -> (r: ErrorModel)
    ensures
        r.message == message,
        r.kind == ErrorKind::PoolTimeout || r.kind == ErrorKind::BackendError,
        r.kind == ErrorKind::BackendError ==> r.cause is Some,
        r.kind == ErrorKind::PoolTimeout ==> r.cause is None,
{
    pool_failure_to_error_model(classify_pool_error(e), message)
}

/// Translate a raw driver error: always a backend error, with the driver's
/// rendered text preserved as the cause.
pub fn db_error_into_error_model(e: &tiberius::error::Error, message: String) -> (r: ErrorModel)
    ensures
        r.message == message,
        r.kind == ErrorKind::BackendError,
        r.cause is Some,
{
    let cause = describe_db_error(e);
    ErrorModel::backend(message, cause)
}

} // verus!
