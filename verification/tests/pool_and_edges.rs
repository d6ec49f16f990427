use iceberg_catalog::config::DynAppConfig;
use iceberg_catalog::dbutils::{db_error_into_error_model, pool_error_into_error_model};
use iceberg_catalog::error::ErrorKind;
use iceberg_catalog::handshake::{ConnectFailure, Handshake, HandshakeStep, Endpoint};
use iceberg_catalog::health::{HealthStatus, ReadWrite};
use iceberg_catalog::pool::{CheckoutAction, Pool, PoolConfig, ProbeOutcome};
use iceberg_catalog::txn::{CatalogState, Transaction};
use iceberg_catalog::{can_serve_writes, MigrationState};

#[test]
fn pool_queues_beyond_bound_and_times_out_at_deadline() {
    let mut p = Pool::new(PoolConfig { max_size: 1, wait_timeout_ms: 50 });
    let a = p.request(1, 0);
    assert!(matches!(a, CheckoutAction::Fresh { conn: 1 }));
    // the pool is at its bound: the next caller queues with a deadline
    let b = p.request(2, 10);
    assert!(matches!(b, CheckoutAction::Queued { deadline: 60 }));
    // before the deadline nobody times out; after it the caller fails
    assert!(p.expire_waiters(59).is_empty());
    let timed_out = p.expire_waiters(60);
    assert_eq!(timed_out, vec![2]);
    assert_eq!(Pool::timeout_error().kind, ErrorKind::PoolTimeout);
}

#[test]
fn failed_probe_discards_the_connection_and_hands_a_fresh_one() {
    let mut p = Pool::new(PoolConfig { max_size: 2, wait_timeout_ms: 50 });
    let a = p.request(1, 0);
    let conn = match a {
        CheckoutAction::Fresh { conn } => conn,
        _ => panic!("expected a fresh connection"),
    };
    p.release(conn);
    // the pooled connection is probed before reuse
    let b = p.request(2, 1);
    assert!(matches!(b, CheckoutAction::Probe { conn: c } if c == conn));
    // the probe fails: that connection is never handed out again
    let outcome = p.probe_result(false);
    match outcome {
        ProbeOutcome::Replaced { discarded, conn: fresh } => {
            assert_eq!(discarded, conn);
            assert_ne!(fresh, conn);
        },
        ProbeOutcome::Handed { .. } => panic!("a failed probe must not hand the connection out"),
    }
    // a healthy probe hands the pooled connection itself out
    let mut q = Pool::new(PoolConfig { max_size: 2, wait_timeout_ms: 50 });
    let c1 = match q.request(1, 0) {
        CheckoutAction::Fresh { conn } => conn,
        _ => panic!("expected a fresh connection"),
    };
    q.release(c1);
    q.request(2, 1);
    assert!(matches!(q.probe_result(true), ProbeOutcome::Handed { conn } if conn == c1));
}

#[test]
fn begin_write_fails_with_pool_timeout_at_the_bound() {
    let cfg = PoolConfig { max_size: 1, wait_timeout_ms: 10 };
    let mut st = CatalogState::from_pools(Pool::new(cfg), Pool::new(cfg));
    let t1 = Transaction::begin_write(&mut st).unwrap();
    let e = match Transaction::begin_write(&mut st) {
        Ok(_) => panic!("the write pool is at its bound"),
        Err(e) => e,
    };
    assert_eq!(e.kind, ErrorKind::PoolTimeout);
    // the connection returns on rollback, and capacity with it
    t1.rollback(&mut st);
    assert!(Transaction::begin_write(&mut st).is_ok());
}

#[test]
fn handshake_follows_one_redirect_then_propagates() {
    let start = Endpoint { host: "db".to_string(), port: 1433 };
    let mut h = Handshake::start(start);
    let step = h.on_failure(ConnectFailure::Redirect { host: "db2".to_string(), port: 1434 });
    match step {
        HandshakeStep::Retry { target } => {
            assert_eq!(target.host, "db2".to_string());
            assert_eq!(target.port, 1434);
        },
        HandshakeStep::Fail { .. } => panic!("first redirect must be retried"),
    }
    let step = h.on_failure(ConnectFailure::Redirect { host: "db3".to_string(), port: 1435 });
    assert!(matches!(step, HandshakeStep::Fail { error } if error.kind == ErrorKind::BackendError));
}

#[test]
fn handshake_keeps_the_driver_cause_on_fatal_errors() {
    let mut h = Handshake::start(Endpoint { host: "db".to_string(), port: 1433 });
    let step = h.on_failure(ConnectFailure::Fatal { message: "login failed".to_string() });
    match step {
        HandshakeStep::Fail { error } => {
            assert_eq!(error.kind, ErrorKind::BackendError);
            assert_eq!(error.cause, Some("login failed".to_string()));
        },
        HandshakeStep::Retry { .. } => panic!("a fatal error is not retried"),
    }
}

#[test]
fn health_starts_unknown_and_snapshots_are_replaced_whole() {
    let cfg = PoolConfig { max_size: 1, wait_timeout_ms: 10 };
    let mut rw = ReadWrite::from_pools(Pool::new(cfg), Pool::new(cfg));
    let h = rw.health();
    assert_eq!(h.len(), 2);
    assert_eq!(h[0].name, "read_pool".to_string());
    assert_eq!(h[1].name, "write_pool".to_string());
    assert_eq!(h[0].status, HealthStatus::Unknown);
    assert_eq!(h[1].status, HealthStatus::Unknown);
    rw.update_health(true, false, 77);
    let h = rw.health();
    assert_eq!(h[0].status, HealthStatus::Healthy);
    assert_eq!(h[1].status, HealthStatus::Unhealthy);
    assert_eq!(h[0].checked_at, 77);
}

#[test]
fn migration_policy_refuses_writes_unless_complete() {
    assert!(can_serve_writes(MigrationState::Complete));
    assert!(!can_serve_writes(MigrationState::Missing));
    assert!(!can_serve_writes(MigrationState::NoMigrationsTable));
}

#[test]
fn missing_connection_string_is_a_configuration_error() {
    let cfg = DynAppConfig {
        jdbc_connection_string: None,
        pool: PoolConfig { max_size: 4, wait_timeout_ms: 100 },
    };
    let e = cfg.mssql_config().unwrap_err();
    assert_eq!(e.kind, ErrorKind::ConfigurationError);
    assert!(e.cause.is_none());
}

#[test]
fn malformed_connection_string_keeps_the_parser_cause() {
    let cfg = DynAppConfig {
        jdbc_connection_string: Some("jdbc:sqlserver://localhost;trustServerCertificate=maybe".to_string()),
        pool: PoolConfig { max_size: 4, wait_timeout_ms: 100 },
    };
    let e = cfg.mssql_config().unwrap_err();
    assert_eq!(e.kind, ErrorKind::ConfigurationError);
    assert!(e.cause.is_some());
}

#[test]
fn valid_connection_string_parses() {
    let cfg = DynAppConfig {
        jdbc_connection_string: Some(
            "jdbc:sqlserver://localhost:1433;database=catalog;user=sa;password=SECRET-REDACTED"
                .to_string(),
        ),
        pool: PoolConfig { max_size: 4, wait_timeout_ms: 100 },
    };
    let (db, pool) = cfg.mssql_config().unwrap();
    assert_eq!(db.get_addr(), "localhost:1433".to_string());
    assert_eq!(pool.max_size, 4);
}

#[test]
fn pool_errors_translate_without_losing_the_cause() {
    let timeout: deadpool::managed::PoolError<tiberius::error::Error> =
        deadpool::managed::PoolError::Timeout(deadpool::managed::TimeoutType::Wait);
    let m = pool_error_into_error_model(timeout, "checkout failed".to_string());
    assert_eq!(m.kind, ErrorKind::PoolTimeout);
    assert_eq!(m.message, "checkout failed".to_string());
    assert!(m.cause.is_none());

    let backend: deadpool::managed::PoolError<tiberius::error::Error> =
        deadpool::managed::PoolError::Backend(tiberius::error::Error::Protocol(
            "unexpected token".into(),
        ));
    let m = pool_error_into_error_model(backend, "checkout failed".to_string());
    assert_eq!(m.kind, ErrorKind::BackendError);
    let cause = m.cause.expect("the driver cause is preserved");
    assert!(cause.contains("unexpected token"));

    let raw = tiberius::error::Error::Protocol("bad packet".into());
    let m = db_error_into_error_model(&raw, "query failed".to_string());
    assert_eq!(m.kind, ErrorKind::BackendError);
    assert!(m.cause.expect("cause kept").contains("bad packet"));
}
