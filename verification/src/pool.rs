//! Connection pool policy: a bounded pool with a pre-checkout liveness
//! probe, waiter queueing with deadlines, and a handshake that retries
//! exactly once on a routing redirect.
//!
//! The pool here is the decision logic alone: which connection to probe,
//! when to create one, when a caller queues and when it times out. The
//! network work itself (dialing, the probe query) is performed by the
//! embedding process, which reports each outcome back as an event.

use vstd::prelude::*;
use crate::error::{ErrorKind, ErrorModel};

verus! {

/// Pool bounds and timeouts, supplied by the caller at construction.
#[derive(Clone, Copy, Debug, PartialEq, Eq, Structural)]
pub struct PoolConfig {
    /// Maximum number of connections handed out or being probed at once.
    pub max_size: usize,
    /// How long a queued caller may wait before checkout fails, in
    /// milliseconds.
    pub wait_timeout_ms: u64,
}

/// A queued caller together with the instant its wait expires.
#[derive(Clone, Copy, Debug, PartialEq, Eq, Structural)]
pub struct Waiter {
    pub caller: u64,
    pub deadline: u64,
}

/// What the pool asks the embedding process to do for a checkout request.
#[derive(Clone, Copy, Debug, PartialEq, Eq, Structural)]
pub enum CheckoutAction {
    /// Run the cheap round-trip probe on this pooled connection and report
    /// the outcome through `probe_result`.
    Probe { conn: u64 },
    /// Establish a new connection under this id and hand it to the caller.
    Fresh { conn: u64 },
    /// No capacity: the caller queues until this deadline.
    Queued { deadline: u64 },
}

/// Outcome of a liveness probe, as decided by the pool.
#[derive(Clone, Copy, Debug, PartialEq, Eq, Structural)]
pub enum ProbeOutcome {
    /// The probed connection answered and is handed to the caller.
    Handed { conn: u64 },
    /// The probed connection failed the check: it is discarded for good and
    /// a fresh replacement is handed to the caller instead.
    Replaced { discarded: u64, conn: u64 },
}

/// The state of one bounded pool.
#[derive(Clone)]
pub struct Pool {
    pub config: PoolConfig,
    /// Connections currently held by callers.
    pub handed: Vec<u64>,
    /// Connections resting in the pool, newest last.
    pub idle: Vec<u64>,
    /// A probe in flight: the caller waiting on it and the connection probed.
    pub pending: Option<Waiter2>,
    /// Callers queued for capacity.
    pub waiters: Vec<Waiter>,
    /// Source of fresh connection ids.
    pub next_conn: u64,
    /// Ids of connections that failed the probe; they are never seen again.
    pub discarded: Ghost<Set<u64>>,
}

/// The caller/connection pair of a probe in flight.
#[derive(Clone, Copy, Debug, PartialEq, Eq, Structural)]
pub struct Waiter2 {
    pub caller: u64,
    pub conn: u64,
}

/// Saturating addition on instants, so a deadline near the end of the clock
/// never wraps around.
pub fn sat_add(a: u64, b: u64) -> (r: u64)
    ensures
        r == if a + b <= u64::MAX { a + b } else { u64::MAX as int },
{
    if a <= u64::MAX - b {
        a + b
    } else {
        u64::MAX
    }
}

/// Position of a connection id in a vector, if present.
pub fn index_of_u64(v: &Vec<u64>, x: u64) -> (r: Option<usize>)
    ensures
        match r {
            Some(i) => i < v@.len() && v@[i as int] == x,
            None => !v@.contains(x),
        },
{
    let mut i: usize = 0;
    while i < v.len()
        invariant
            i <= v@.len(),
            forall|k: int| 0 <= k < i ==> v@[k] != x,
        decreases v@.len() - i,
    {
        if v[i] == x {
            return Some(i);
        }
        i += 1;
    }
    None
}

impl Pool {
    /// Connections handed out or being probed: what counts against the bound.
    pub open spec fn in_flight(self) -> int {
        self.handed@.len() + if self.pending is Some { 1int } else { 0int }
    }

    pub open spec fn is_handed(self, conn: u64) -> bool {
        self.handed@.contains(conn)
    }

    /// Fresh connection ids remain.
    pub open spec fn ids_left(self) -> bool {
        self.next_conn < u64::MAX
    }

    /// Pool invariant: ids unique and below the counter, handed and idle
    /// disjoint, the bound respected, and no discarded connection anywhere
    /// a caller could receive it from.
    pub open spec fn inv(self) -> bool {
        &&& forall|i: int, j: int|
            0 <= i < j < self.handed@.len() ==> self.handed@[i] != self.handed@[j]
        &&& forall|i: int, j: int|
            0 <= i < j < self.idle@.len() ==> self.idle@[i] != self.idle@[j]
        &&& forall|i: int| 0 <= i < self.handed@.len() ==> self.handed@[i] < self.next_conn
        &&& forall|i: int| 0 <= i < self.idle@.len() ==> self.idle@[i] < self.next_conn
        &&& forall|i: int| 0 <= i < self.idle@.len() ==> !self.handed@.contains(self.idle@[i])
        &&& self.in_flight() <= self.config.max_size
        &&& match self.pending {
            Some(p) => p.conn < self.next_conn && !self.handed@.contains(p.conn)
                && !self.idle@.contains(p.conn) && !self.discarded@.contains(p.conn),
            None => true,
        }
        &&& forall|i: int|
            0 <= i < self.handed@.len() ==> !self.discarded@.contains(self.handed@[i])
        &&& forall|i: int| 0 <= i < self.idle@.len() ==> !self.discarded@.contains(self.idle@[i])
        &&& forall|c: u64| self.discarded@.contains(c) ==> c < self.next_conn
    }

    /// A new, empty pool with the given bounds.
    pub fn new(config: PoolConfig) -> (r: Pool)
        ensures
            r.inv(),
            r.config == config,
            r.handed@.len() == 0,
            r.idle@.len() == 0,
            r.waiters@.len() == 0,
            r.pending is None,
            r.next_conn == 1,
            r.discarded@ == Set::<u64>::empty(),
    {
        Pool {
            config,
            handed: Vec::new(),
            idle: Vec::new(),
            pending: None,
            waiters: Vec::new(),
            next_conn: 1,
            discarded: Ghost(Set::empty()),
        }
    }

    /// A caller asks for a connection at instant `now`.
    ///
    /// Below the bound, an idle connection is probed first (newest first);
    /// with no idle connection a fresh one is created. At the bound the
    /// caller queues until `now + wait_timeout_ms`.
    pub fn request(&mut self, caller: u64, now: u64) -> (r: CheckoutAction)
        requires
            old(self).inv(),
            old(self).pending is None,
            old(self).ids_left(),
        ensures
            final(self).inv(),
            final(self).config == old(self).config,
            final(self).discarded == old(self).discarded,
            if old(self).in_flight() >= old(self).config.max_size {
                let deadline = if now + old(self).config.wait_timeout_ms <= u64::MAX {
                    (now + old(self).config.wait_timeout_ms) as u64
                } else {
                    u64::MAX
                };
                &&& r == (CheckoutAction::Queued { deadline })
                &&& final(self).waiters@ == old(self).waiters@.push(Waiter { caller, deadline })
                &&& final(self).handed == old(self).handed
                &&& final(self).idle == old(self).idle
                &&& final(self).pending is None
                &&& final(self).next_conn == old(self).next_conn
            } else if old(self).idle@.len() > 0 {
                &&& r == (CheckoutAction::Probe { conn: old(self).idle@.last() })
                &&& final(self).idle@ == old(self).idle@.drop_last()
                &&& final(self).pending == Some(Waiter2 { caller, conn: old(self).idle@.last() })
                &&& final(self).handed == old(self).handed
                &&& final(self).waiters == old(self).waiters
                &&& final(self).next_conn == old(self).next_conn
            } else {
                &&& r == (CheckoutAction::Fresh { conn: old(self).next_conn })
                &&& final(self).handed@ == old(self).handed@.push(old(self).next_conn)
                &&& final(self).idle == old(self).idle
                &&& final(self).pending is None
                &&& final(self).waiters == old(self).waiters
                &&& final(self).next_conn == old(self).next_conn + 1
            },
    {
        if self.handed.len() >= self.config.max_size {
            let deadline = sat_add(now, self.config.wait_timeout_ms);
            self.waiters.push(Waiter { caller, deadline });
            return CheckoutAction::Queued { deadline };
        }
        if self.idle.len() > 0 {
            let conn = self.idle.pop().unwrap();
            self.pending = Some(Waiter2 { caller, conn });
            return CheckoutAction::Probe { conn };
        }
        let conn = self.next_conn;
        self.next_conn = self.next_conn + 1;
        self.handed.push(conn);
        CheckoutAction::Fresh { conn }
    }

    /// The embedding process reports the outcome of the probe requested by
    /// `request`. A connection that failed the probe is discarded — it is
    /// never handed to a caller and never returns to the pool — and a fresh
    /// replacement is handed out instead.
    pub fn probe_result(&mut self, ok: bool) -> (r: ProbeOutcome)
        requires
            old(self).inv(),
            old(self).pending is Some,
            old(self).ids_left(),
        ensures
            final(self).inv(),
            final(self).config == old(self).config,
            final(self).pending is None,
            final(self).idle == old(self).idle,
            final(self).waiters == old(self).waiters,
            if ok {
                &&& r == (ProbeOutcome::Handed { conn: old(self).pending->Some_0.conn })
                &&& final(self).handed@ == old(self).handed@.push(old(self).pending->Some_0.conn)
                &&& final(self).discarded == old(self).discarded
                &&& final(self).next_conn == old(self).next_conn
            } else {
                &&& r == (ProbeOutcome::Replaced {
                    discarded: old(self).pending->Some_0.conn,
                    conn: old(self).next_conn,
                })
                &&& final(self).handed@ == old(self).handed@.push(old(self).next_conn)
                &&& final(self).discarded@ == old(self).discarded@.insert(old(self).pending->Some_0.conn)
                &&& final(self).next_conn == old(self).next_conn + 1
                &&& !final(self).is_handed(old(self).pending->Some_0.conn)
                &&& !final(self).idle@.contains(old(self).pending->Some_0.conn)
            },
    {
        let p = match self.pending {
            Some(p) => p,
            None => {
                proof {
                    assert(false);
                }
                Waiter2 { caller: 0, conn: 0 }
            },
        };
        self.pending = None;
        if ok {
            self.handed.push(p.conn);
            ProbeOutcome::Handed { conn: p.conn }
        } else {
            let fresh = self.next_conn;
            self.next_conn = self.next_conn + 1;
            proof {
                self.discarded@ = self.discarded@.insert(p.conn);
            }
            self.handed.push(fresh);
            assert(self.handed@ =~= old(self).handed@.push(fresh));
            ProbeOutcome::Replaced { discarded: p.conn, conn: fresh }
        }
    }

    /// A caller returns its connection to the pool.
    pub fn release(&mut self, conn: u64)
        requires
            old(self).inv(),
            old(self).is_handed(conn),
        ensures
            final(self).inv(),
            final(self).config == old(self).config,
            !final(self).is_handed(conn),
            final(self).idle@ == old(self).idle@.push(conn),
            final(self).handed@.len() == old(self).handed@.len() - 1,
            forall|c: u64| c != conn ==> final(self).is_handed(c) == old(self).is_handed(c),
            final(self).pending == old(self).pending,
            final(self).waiters == old(self).waiters,
            final(self).next_conn == old(self).next_conn,
            final(self).discarded == old(self).discarded,
    {
        let i = match index_of_u64(&self.handed, conn) {
            Some(i) => i,
            None => {
                proof {
                    assert(false);
                }
                0
            },
        };
        self.handed.remove(i);
        self.idle.push(conn);
        proof {
            assert forall|c: u64| c != conn implies self.is_handed(c) == old(self).is_handed(
                c,
            ) by {
                if old(self).is_handed(c) {
                    let k = choose|k: int|
                        0 <= k < old(self).handed@.len() && old(self).handed@[k] == c;
                    if k < i {
                        assert(self.handed@[k] == c);
                    } else {
                        assert(self.handed@[k - 1] == c);
                    }
                }
                if self.is_handed(c) {
                    let k = choose|k: int| 0 <= k < self.handed@.len() && self.handed@[k] == c;
                    if k < i {
                        assert(old(self).handed@[k] == c);
                    } else {
                        assert(old(self).handed@[k + 1] == c);
                    }
                }
            }
            assert forall|k: int| 0 <= k < self.idle@.len() implies !self.handed@.contains(
                self.idle@[k],
            ) by {
                if k < old(self).idle@.len() {
                    assert(old(self).idle@[k] == self.idle@[k]);
                }
            }
        }
    }

    /// Advance the clock: every queued caller whose deadline has passed is
    /// removed from the queue and fails with a pool timeout. Returns the
    /// callers that timed out, oldest first.
    pub fn expire_waiters(&mut self, now: u64) -> (timed_out: Vec<u64>)
        requires
            old(self).inv(),
        ensures
            final(self).inv(),
            final(self).config == old(self).config,
            final(self).handed == old(self).handed,
            final(self).idle == old(self).idle,
            final(self).pending == old(self).pending,
            final(self).next_conn == old(self).next_conn,
            final(self).discarded == old(self).discarded,
            timed_out@ == old(self).waiters@.filter(|w: Waiter| w.deadline <= now).map_values(
                |w: Waiter| w.caller,
            ),
            final(self).waiters@ == old(self).waiters@.filter(|w: Waiter| w.deadline > now),
    {
        let ghost orig = self.waiters@;
        let mut timed_out: Vec<u64> = Vec::new();
        let mut kept: Vec<Waiter> = Vec::new();
        let mut i: usize = 0;
        proof {
            assert(orig.take(0) =~= Seq::<Waiter>::empty());
            reveal(Seq::filter);
        }
        while i < self.waiters.len()
            invariant
                i <= self.waiters@.len(),
                self.waiters@ == orig,
                timed_out@ == orig.take(i as int).filter(|w: Waiter| w.deadline <= now)
                    .map_values(|w: Waiter| w.caller),
                kept@ == orig.take(i as int).filter(|w: Waiter| w.deadline > now),
            decreases self.waiters@.len() - i,
        {
            let w = self.waiters[i];
            proof {
                reveal(Seq::filter);
                assert(orig.take(i + 1).drop_last() =~= orig.take(i as int));
                assert(orig.take(i + 1).last() == w);
            }
            if w.deadline <= now {
                timed_out.push(w.caller);
                proof {
                    assert(orig.take(i + 1).filter(|w: Waiter| w.deadline <= now) =~= orig.take(
                        i as int,
                    ).filter(|w: Waiter| w.deadline <= now).push(w));
                    assert(timed_out@ =~= orig.take(i + 1).filter(
                        |w: Waiter| w.deadline <= now,
                    ).map_values(|w: Waiter| w.caller));
                    assert(orig.take(i + 1).filter(|w: Waiter| w.deadline > now) =~= orig.take(
                        i as int,
                    ).filter(|w: Waiter| w.deadline > now));
                }
            } else {
                kept.push(w);
                proof {
                    assert(orig.take(i + 1).filter(|w: Waiter| w.deadline <= now) =~= orig.take(
                        i as int,
                    ).filter(|w: Waiter| w.deadline <= now));
                    assert(orig.take(i + 1).filter(|w: Waiter| w.deadline > now) =~= orig.take(
                        i as int,
                    ).filter(|w: Waiter| w.deadline > now).push(w));
                }
            }
            i += 1;
        }
        proof {
            assert(orig.take(orig.len() as int) =~= orig);
        }
        self.waiters = kept;
        timed_out
    }

    /// The error a timed-out waiter receives.
    pub fn timeout_error() -> (r: ErrorModel)
        ensures
            r.kind == ErrorKind::PoolTimeout,
            r.cause is None,
    {
        ErrorModel::new(
            ErrorKind::PoolTimeout,
            "connection checkout timed out waiting for pool capacity".to_owned(),
        )
    }

    /// Immediate checkout for a unit of work: a fresh connection below the
    /// bound, a pool timeout at the bound. The probe/queue protocol above is
    /// for the embedding process, which can wait on events; a caller that
    /// cannot wait fails distinctly with `PoolTimeout`.
    pub fn lease(&mut self) -> (r: Result<u64, ErrorModel>)
        requires
            old(self).inv(),
            old(self).ids_left(),
        ensures
            final(self).inv(),
            final(self).config == old(self).config,
            final(self).idle == old(self).idle,
            final(self).pending == old(self).pending,
            final(self).waiters == old(self).waiters,
            final(self).discarded == old(self).discarded,
            if old(self).in_flight() < old(self).config.max_size {
                &&& r == Ok::<u64, ErrorModel>(old(self).next_conn)
                &&& final(self).handed@ == old(self).handed@.push(old(self).next_conn)
                &&& final(self).is_handed(old(self).next_conn)
                &&& final(self).next_conn == old(self).next_conn + 1
            } else {
                &&& r matches Err(e) && e.kind == ErrorKind::PoolTimeout
                &&& final(self).handed == old(self).handed
                &&& final(self).next_conn == old(self).next_conn
            },
    {
        let pending_count: usize = if self.pending.is_some() {
            1
        } else {
            0
        };
        if self.handed.len() < self.config.max_size && self.config.max_size - self.handed.len()
            > pending_count {
            let conn = self.next_conn;
            self.next_conn = self.next_conn + 1;
            self.handed.push(conn);
            assert(self.handed@.last() == conn);
            Ok(conn)
        } else {
            Err(Pool::timeout_error())
        }
    }
}

} // verus!
