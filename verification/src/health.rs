//! Health snapshots for the read and write pools.
//!
//! A snapshot is a whole replaced value: `update_health` records one entry
//! per pool from the probe outcomes it is given, `health` returns the latest
//! snapshot without triggering new checks. Before any check both entries are
//! Unknown. Issuing the probe queries is outside work; the embedding process
//! reports each outcome.

use vstd::prelude::*;
use crate::pool::Pool;

verus! {

/// Liveness of one pool as last observed.
#[derive(Clone, Copy, Debug, PartialEq, Eq, Structural)]
pub enum HealthStatus {
    Unknown,
    Healthy,
    Unhealthy,
}

/// A named health entry with the instant it was recorded.
#[derive(Clone, Debug)]
pub struct Health {
    pub name: String,
    pub status: HealthStatus,
    pub checked_at: u64,
}

/// The read pool, the write pool, and the latest health snapshot.
#[derive(Clone)]
pub struct ReadWrite {
    pub read_pool: Pool,
    pub write_pool: Pool,
    pub health: Vec<Health>,
}

impl ReadWrite {
    /// The shape every snapshot keeps: one entry per pool, read first.
    pub open spec fn health_wf(self) -> bool {
        &&& self.health@.len() == 2
        &&& self.health@[0].name@ == "read_pool"@
        &&& self.health@[1].name@ == "write_pool"@
    }

    pub open spec fn inv(self) -> bool {
        &&& self.read_pool.inv()
        &&& self.write_pool.inv()
        &&& self.health_wf()
    }

    /// Wrap two freshly configured pools; both health entries start Unknown.
    pub fn from_pools(read_pool: Pool, write_pool: Pool) -> (r: ReadWrite)
        requires
            read_pool.inv(),
            write_pool.inv(),
        ensures
            r.inv(),
            r.read_pool == read_pool,
            r.write_pool == write_pool,
            r.health@[0].status == HealthStatus::Unknown,
            r.health@[1].status == HealthStatus::Unknown,
    {
        let mut health: Vec<Health> = Vec::new();
        health.push(
            Health { name: "read_pool".to_owned(), status: HealthStatus::Unknown, checked_at: 0 },
        );
        health.push(
            Health { name: "write_pool".to_owned(), status: HealthStatus::Unknown, checked_at: 0 },
        );
        ReadWrite { read_pool, write_pool, health }
    }

    /// The latest snapshot, as recorded by the last `update_health`; no new
    /// checks are triggered.
    pub fn health(&self) -> (r: Vec<Health>)
        ensures
            r@.len() == self.health@.len(),
            forall|i: int| #![trigger r@[i]]
                0 <= i < r@.len() ==> r@[i].name@ == self.health@[i].name@
                    && r@[i].status == self.health@[i].status && r@[i].checked_at
                    == self.health@[i].checked_at,
    {
        let mut r: Vec<Health> = Vec::new();
        let mut i: usize = 0;
        while i < self.health.len()
            invariant
                i <= self.health@.len(),
                r@.len() == i,
                forall|k: int| #![trigger r@[k]]
                    0 <= k < i ==> r@[k].name@ == self.health@[k].name@
                        && r@[k].status == self.health@[k].status && r@[k].checked_at
                        == self.health@[k].checked_at,
            decreases self.health@.len() - i,
        {
            let e = &self.health[i];
            r.push(Health { name: e.name.clone(), status: e.status, checked_at: e.checked_at });
            i += 1;
        }
        r
    }

    /// Replace the whole snapshot from the probe outcomes observed at `now`:
    /// a pool whose probe answered is Healthy, otherwise Unhealthy.
    pub fn update_health(&mut self, read_ok: bool, write_ok: bool, now: u64)
        ensures
            final(self).read_pool == old(self).read_pool,
            final(self).write_pool == old(self).write_pool,
            final(self).health_wf(),
            final(self).health@[0].status == (if read_ok {
                HealthStatus::Healthy
            } else {
                HealthStatus::Unhealthy
            }),
            final(self).health@[1].status == (if write_ok {
                HealthStatus::Healthy
            } else {
                HealthStatus::Unhealthy
            }),
            final(self).health@[0].checked_at == now,
            final(self).health@[1].checked_at == now,
            old(self).inv() ==> final(self).inv(),
    {
        let read_status = if read_ok {
            HealthStatus::Healthy
        } else {
            HealthStatus::Unhealthy
        };
        let write_status = if write_ok {
            HealthStatus::Healthy
        } else {
            HealthStatus::Unhealthy
        };
        let mut health: Vec<Health> = Vec::new();
        health.push(Health { name: "read_pool".to_owned(), status: read_status, checked_at: now });
        health.push(
            Health { name: "write_pool".to_owned(), status: write_status, checked_at: now },
        );
        self.health = health;
    }
}

} // verus!
