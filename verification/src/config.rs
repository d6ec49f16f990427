//! Process configuration consumed by the catalog: an already-loaded
//! connection descriptor, turned into a driver configuration and pool
//! bounds at startup. A malformed or missing descriptor is a
//! `ConfigurationError`, detected before any traffic is served.

use vstd::prelude::*;
use crate::error::{ErrorKind, ErrorModel};
use crate::outside::{describe_db_error, jdbc_ok, parse_jdbc_config};
use crate::pool::PoolConfig;

verus! {

/// The configuration values this backend reads.
pub struct DynAppConfig {
    /// The JDBC connection string for the relational backend, if one was
    /// supplied.
    pub jdbc_connection_string: Option<String>,
    /// Pool bounds and checkout timeout, supplied by the operator.
    pub pool: PoolConfig,
}

impl DynAppConfig {
    /// Build the driver configuration and the pool bounds: success exactly
    /// when a connection string is present and the driver's parser accepts
    /// it. Fails with `ConfigurationError` when the string is missing, and
    /// with `ConfigurationError` carrying the parser's text when it is
    /// malformed.
    pub fn mssql_config(&self) -> (r: Result<(tiberius::Config, PoolConfig), ErrorModel>)
        ensures
            r is Ok <==> (self.jdbc_connection_string matches Some(s) && jdbc_ok(s@)),
            self.jdbc_connection_string is None ==> (r matches Err(e) && e.kind
                == ErrorKind::ConfigurationError && e.cause is None),
            r matches Err(e) ==> e.kind == ErrorKind::ConfigurationError,
            r matches Ok(p) ==> p.1 == self.pool,
    {
        let s = match &self.jdbc_connection_string {
            Some(s) => s,
            None => {
                return Err(ErrorModel::new(
                    ErrorKind::ConfigurationError,
                    "jdbc connection string is not set".to_owned(),
                ));
            },
        };
        match parse_jdbc_config(s.as_str()) {
            Ok(c) => Ok((c, self.pool)),
            Err(e) => {
                let cause = describe_db_error(&e);
                Err(
                    ErrorModel {
                        kind: ErrorKind::ConfigurationError,
                        message: "jdbc connection string is not valid".to_owned(),
                        cause: Some(cause),
                    },
                )
            },
        }
    }
}

} // verus!
