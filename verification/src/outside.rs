//! Declarations of the driver and pool types the library touches, and the
//! thin trusted wrappers around them. Each wrapper's body only makes the
//! call and converts values; what Verus knows of them is stated here.

use vstd::prelude::*;
use crate::handshake::ConnectFailure;

verus! {

#[verifier::external_type_specification]
#[verifier::external_body]
pub struct ExTiberiusConfig(tiberius::Config);

#[verifier::external_type_specification]
#[verifier::external_body]
pub struct ExTiberiusError(tiberius::error::Error);

#[verifier::external_type_specification]
#[verifier::external_body]
#[verifier::reject_recursive_types(E)]
pub struct ExPoolError<E>(deadpool::managed::PoolError<E>);

/// Whether the driver's JDBC parser accepts a connection string. The
/// outcome depends on the characters alone; which strings it accepts is
/// the driver's affair and is not stated here.
pub uninterp spec fn jdbc_ok(s: Seq<char>) -> bool;

/// Relies on tiberius::Config::from_jdbc_string: parses a JDBC connection
/// string into a driver configuration, or reports why it cannot. The
/// parser is deterministic, so acceptance is a function of the string.
#[verifier::external_body]
pub(crate) fn parse_jdbc_config(s: &str) -> (r: Result<tiberius::Config, tiberius::error::Error>)
    ensures
        r is Ok <==> jdbc_ok(s@),
{
    tiberius::Config::from_jdbc_string(s)
}

/// Relies on the Display impl of tiberius::error::Error: renders the
/// driver's own description of a failure, so the cause is preserved in
/// text.
#[verifier::external_body]
pub(crate) fn describe_db_error(e: &tiberius::error::Error) -> (r: String) {
    format!("{e}")
}

/// Relies on the variants of tiberius::error::Error: a Routing value names
/// an alternative host and port; every other variant is rendered through
/// its Display impl. One arm per case, moving fields only.
#[verifier::external_body]
pub(crate) fn classify_connect_error(e: tiberius::error::Error) -> (r: ConnectFailure) {
    match e {
        tiberius::error::Error::Routing { host, port } => ConnectFailure::Redirect { host, port },
        other => ConnectFailure::Fatal { message: format!("{other}") },
    }
}

/// What a checkout through the pool reported, with the driver text kept.
pub enum PoolFailure {
    /// The wait, creation or recycling deadline passed.
    Timeout,
    /// The backend itself failed.
    Backend { cause: String },
    /// The pool was closed.
    Closed,
    /// No async runtime was configured.
    NoRuntime,
    /// A post-create hook rejected the connection.
    PostCreateHook { cause: String },
}

/// Relies on the variants of deadpool::managed::PoolError: one arm per
/// case, carrying the rendered backend or hook error along.
#[verifier::external_body]
pub(crate) fn classify_pool_error(
    e: deadpool::managed::PoolError<tiberius::error::Error>,
) -> (r: PoolFailure) {
    match e {
        deadpool::managed::PoolError::Timeout(_) => PoolFailure::Timeout,
        deadpool::managed::PoolError::Backend(b) => PoolFailure::Backend {
            cause: format!("{b}"),
        },
        deadpool::managed::PoolError::Closed => PoolFailure::Closed,
        deadpool::managed::PoolError::NoRuntimeSpecified => PoolFailure::NoRuntime,
        deadpool::managed::PoolError::PostCreateHook(h) => PoolFailure::PostCreateHook {
            cause: format!("{h}"),
        },
    }
}

} // verus!
