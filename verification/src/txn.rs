//! The unit of work: a transaction wraps one checked-out connection and a
//! working copy of the registry. All catalog mutations performed against the
//! same transaction observe each other and become durable only at `commit`;
//! `rollback` discards them. Either way the connection returns to its pool.

use vstd::prelude::*;
use crate::error::ErrorModel;
use crate::health::ReadWrite;
use crate::pool::Pool;
use crate::registry::Registry;

verus! {

/// Whether the transaction came from the read pool or the write pool.
#[derive(Clone, Copy, Debug, PartialEq, Eq, Structural)]
pub enum TxnMode {
    Read,
    Write,
}

/// The durable catalog state: the two pools with their health snapshot, and
/// the committed registry that read transactions observe.
#[derive(Clone)]
pub struct CatalogState {
    pub read_write: ReadWrite,
    pub registry: Registry,
}

/// One open unit of work. Exactly one is live per logical operation;
/// nesting is not supported.
pub struct Transaction {
    pub mode: TxnMode,
    /// The connection checked out for this transaction.
    pub conn: u64,
    /// Working copy of the registry: read-your-writes until commit.
    pub working: Registry,
}

impl CatalogState {
    pub open spec fn inv(self) -> bool {
        &&& self.read_write.inv()
        &&& self.registry.wf()
    }

    /// Assemble the catalog state from two freshly configured pools; the
    /// registry starts empty.
    pub fn from_pools(read_pool: Pool, write_pool: Pool) -> (r: CatalogState)
        requires
            read_pool.inv(),
            write_pool.inv(),
        ensures
            r.inv(),
            r.read_write.read_pool == read_pool,
            r.read_write.write_pool == write_pool,
            r.registry.warehouses@.len() == 0,
            r.registry.namespaces@.len() == 0,
            r.registry.tabulars@.len() == 0,
    {
        CatalogState { read_write: ReadWrite::from_pools(read_pool, write_pool), registry: Registry::new() }
    }
}

impl Transaction {
    pub open spec fn is_write(self) -> bool {
        self.mode is Write
    }

    pub open spec fn wf(self) -> bool {
        self.working.wf()
    }

    /// Start a unit of work suitable for mutation: check a connection out of
    /// the write pool and take a working copy of the committed registry.
    /// With the write pool at its bound the checkout fails with the pool
    /// timeout error; the durable state is untouched either way.
    pub fn begin_write(state: &mut CatalogState) -> (r: Result<Transaction, ErrorModel>)
        requires
            old(state).inv(),
            old(state).read_write.write_pool.ids_left(),
        ensures
            final(state).inv(),
            final(state).registry == old(state).registry,
            final(state).read_write.read_pool == old(state).read_write.read_pool,
            final(state).read_write.health == old(state).read_write.health,
            r is Ok <==> old(state).read_write.write_pool.in_flight() < old(
                state,
            ).read_write.write_pool.config.max_size,
            match r {
                Ok(t) => {
                    &&& t.mode is Write
                    &&& t.working.like(old(state).registry)
                    &&& t.wf()
                    &&& final(state).read_write.write_pool.is_handed(t.conn)
                },
                Err(e) => {
                    &&& e.kind == crate::error::ErrorKind::PoolTimeout
                    &&& final(state).read_write.write_pool == old(state).read_write.write_pool
                },
            },
    {
        match state.read_write.write_pool.lease() {
            Ok(conn) => {
                let working = state.registry.snapshot();
                proof {
                    working.lemma_like_wf(state.registry);
                }
                Ok(Transaction { mode: TxnMode::Write, conn, working })
            },
            Err(e) => Err(e),
        }
    }

    /// Start a read-only unit of work against the read pool; the working
    /// copy observes exactly the committed registry.
    pub fn begin_read(state: &mut CatalogState) -> (r: Result<Transaction, ErrorModel>)
        requires
            old(state).inv(),
            old(state).read_write.read_pool.ids_left(),
        ensures
            final(state).inv(),
            final(state).registry == old(state).registry,
            final(state).read_write.write_pool == old(state).read_write.write_pool,
            final(state).read_write.health == old(state).read_write.health,
            r is Ok <==> old(state).read_write.read_pool.in_flight() < old(
                state,
            ).read_write.read_pool.config.max_size,
            match r {
                Ok(t) => {
                    &&& t.mode is Read
                    &&& t.working.like(old(state).registry)
                    &&& t.wf()
                    &&& final(state).read_write.read_pool.is_handed(t.conn)
                },
                Err(e) => {
                    &&& e.kind == crate::error::ErrorKind::PoolTimeout
                    &&& final(state).read_write.read_pool == old(state).read_write.read_pool
                },
            },
    {
        match state.read_write.read_pool.lease() {
            Ok(conn) => {
                let working = state.registry.snapshot();
                proof {
                    working.lemma_like_wf(state.registry);
                }
                Ok(Transaction { mode: TxnMode::Read, conn, working })
            },
            Err(e) => Err(e),
        }
    }

    /// Commit: a write transaction installs its working registry as the new
    /// committed state; a read transaction installs nothing. The connection
    /// returns to its pool on this exit path.
    pub fn commit(self, state: &mut CatalogState)
        requires
            old(state).inv(),
            self.wf(),
            self.is_write() ==> old(state).read_write.write_pool.is_handed(self.conn),
            !self.is_write() ==> old(state).read_write.read_pool.is_handed(self.conn),
        ensures
            final(state).inv(),
            final(state).registry == if self.is_write() {
                self.working
            } else {
                old(state).registry
            },
            final(state).read_write.health == old(state).read_write.health,
            self.is_write() ==> !final(state).read_write.write_pool.is_handed(self.conn)
                && final(state).read_write.read_pool == old(state).read_write.read_pool,
            !self.is_write() ==> !final(state).read_write.read_pool.is_handed(self.conn)
                && final(state).read_write.write_pool == old(state).read_write.write_pool,
    {
        match self.mode {
            TxnMode::Write => {
                state.read_write.write_pool.release(self.conn);
                state.registry = self.working;
            },
            TxnMode::Read => {
                state.read_write.read_pool.release(self.conn);
            },
        }
    }

    /// Roll back: the working copy is discarded, the committed registry is
    /// untouched, and the connection returns to its pool. Discarding a
    /// transaction without committing must come through here, so that the
    /// connection is released on every exit path.
    pub fn rollback(self, state: &mut CatalogState)
        requires
            old(state).inv(),
            self.is_write() ==> old(state).read_write.write_pool.is_handed(self.conn),
            !self.is_write() ==> old(state).read_write.read_pool.is_handed(self.conn),
        ensures
            final(state).inv(),
            final(state).registry == old(state).registry,
            final(state).read_write.health == old(state).read_write.health,
            self.is_write() ==> !final(state).read_write.write_pool.is_handed(self.conn)
                && final(state).read_write.read_pool == old(state).read_write.read_pool,
            !self.is_write() ==> !final(state).read_write.read_pool.is_handed(self.conn)
                && final(state).read_write.write_pool == old(state).read_write.write_pool,
    {
        match self.mode {
            TxnMode::Write => {
                state.read_write.write_pool.release(self.conn);
            },
            TxnMode::Read => {
                state.read_write.read_pool.release(self.conn);
            },
        }
    }
}

} // verus!
