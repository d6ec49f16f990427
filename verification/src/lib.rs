//! Metadata catalog layer for a lakehouse table format.
//!
//! The library tracks the hierarchy of projects, warehouses, namespaces,
//! tables and views, and offers transactionally consistent operations over
//! them. Connection handling against the relational backend is modelled as
//! verified decision logic; the network calls themselves live outside the
//! library.

use vstd::prelude::*;

pub mod catalog;
pub mod config;
pub mod dbutils;
pub mod error;
pub mod handshake;
pub mod health;
pub mod laws;
pub mod outside;
pub mod pagination;
pub mod pool;
pub mod registry;
pub mod txn;

verus! {

/// Marker for this catalog backend: one implementation of the catalog
/// contract, selected at process start.
#[derive(Clone, Copy, Debug, PartialEq, Eq, Structural)]
pub struct Catalog {}

/// What the migration runner reported about the schema.
#[derive(Clone, Copy, Debug, PartialEq, Eq, Structural)]
pub enum MigrationState {
    Complete,
    Missing,
    NoMigrationsTable,
}

/// The catalog serves writes only on a fully migrated schema; the caller
/// of the migration interface enforces this policy with this predicate.
pub fn can_serve_writes(state: MigrationState) -> (r: bool)
    ensures
        r == (state is Complete),
{
    matches!(state, MigrationState::Complete)
}

} // verus!
