//! The states of the pool and the steps between them.

use vstd::prelude::*;

verus! {

/// Where the pool stands in its life. It only moves forward.
#[derive(Clone, Copy, Debug, PartialEq, Eq, Structural)]
pub enum Lifecycle {
    /// Leases are handed out.
    Running,
    /// No lease is handed out any more; outstanding ones are awaited.
    Closing,
    /// Every lease has come back and every connection is closed.
    Closed,
}

/// What a caller who asks for a connection is told.
#[derive(Clone, Copy, Debug, PartialEq, Eq, Structural)]
pub enum Acquire {
    /// The caller holds the lease of this idle connection.
    Lease(u32),
    /// The caller holds a place in the pool under this identity and has to
    /// establish the connection for it.
    Connect(u32),
    /// The pool is full. The caller is queued and waits to be woken.
    Wait,
    /// The pool is shutting down.
    Closed,
}

/// What becomes of a connection that comes back, or of a place whose
/// connection could not be established.
#[derive(Clone, Copy, Debug, PartialEq, Eq, Structural)]
pub enum Release {
    /// The pool holds no such lease or place. Nothing has changed.
    Unknown,
    /// The connection is idle again.
    Idle,
    /// The lease has passed to this waiter, who is to be woken with it.
    Handoff(u64),
    /// The session is to be closed. Its place is free.
    Discard,
    /// The session is to be closed. Its place has passed to this waiter, who
    /// is to be woken to establish a new connection for it.
    Replace(u64),
}

/// What becomes of a connection that has just been established.
#[derive(Clone, Copy, Debug, PartialEq, Eq, Structural)]
pub enum Connected {
    /// The pool holds no such place. Nothing has changed.
    Unknown,
    /// The caller who established the connection holds its lease.
    Leased,
    /// The pool is shutting down: the session is to be closed, and the
    /// caller told so.
    Rejected,
}

/// One request to the pool.
pub enum Event {
    Acquire(u64),
    Release(u32, bool),
    Connected(u32),
    ConnectFailed(u32),
    Cancel(u64),
    Retire(u32),
    Replenish,
    Close,
}

/// The state of a pool.
///
/// Connections are known by identities. An identity is in exactly one
/// place: recycled (free to be given out again), idle, leased, or connecting
/// (given to a caller who is establishing the session). Identities from
/// `fresh` on have never been given out.
pub struct PoolState {
    pub min_size: nat,
    pub max_size: nat,
    pub lifecycle: Lifecycle,
    pub fresh: nat,
    pub recycled: Seq<u32>,
    /// The idle connections; the first is the next to be leased.
    pub idle: Seq<u32>,
    pub leased: Seq<u32>,
    pub connecting: Seq<u32>,
    /// The callers that wait for a connection, in the order of their arrival.
    pub waiters: Seq<u64>,
}

/// Whether no value is found in both `a` and `b`.
pub open spec fn apart(a: Seq<u32>, b: Seq<u32>) -> bool {
    forall|x: u32| #![trigger a.contains(x)] #![trigger b.contains(x)] a.contains(x) ==> !b.contains(x)
}

/// Whether every value in `a` lies below `bound`.
pub open spec fn below(a: Seq<u32>, bound: nat) -> bool {
    forall|x: u32| #[trigger] a.contains(x) ==> x < bound
}

impl PoolState {
    /// The connections that callers hold or are establishing.
    pub open spec fn outstanding(self) -> nat {
        self.leased.len() + self.connecting.len()
    }

    /// The connections that the pool owns.
    pub open spec fn size(self) -> nat {
        self.idle.len() + self.outstanding()
    }

    /// Whether `conn` is the identity of a connection that the pool owns.
    pub open spec fn owns(self, conn: u32) -> bool {
        self.idle.contains(conn) || self.leased.contains(conn) || self.connecting.contains(conn)
    }

    /// What always holds of a pool.
    pub open spec fn wf(self) -> bool {
        &&& self.min_size <= self.max_size <= u32::MAX
        &&& self.fresh == self.recycled.len() + self.size()
        &&& self.fresh <= self.max_size
        &&& self.recycled.no_duplicates()
        &&& self.idle.no_duplicates()
        &&& self.leased.no_duplicates()
        &&& self.connecting.no_duplicates()
        &&& apart(self.recycled, self.idle)
        &&& apart(self.recycled, self.leased)
        &&& apart(self.recycled, self.connecting)
        &&& apart(self.idle, self.leased)
        &&& apart(self.idle, self.connecting)
        &&& apart(self.leased, self.connecting)
        &&& below(self.recycled, self.fresh)
        &&& below(self.idle, self.fresh)
        &&& below(self.leased, self.fresh)
        &&& below(self.connecting, self.fresh)
        &&& self.waiters.no_duplicates()
        &&& (self.waiters.len() > 0 ==> self.lifecycle is Running && self.idle.len() == 0
            && self.size() == self.max_size)
        &&& (!(self.lifecycle is Running) ==> self.idle.len() == 0)
        &&& (self.lifecycle is Closing ==> self.outstanding() > 0)
        &&& (self.lifecycle is Closed ==> self.outstanding() == 0)
    }

    /// A new pool: running, and empty.
    pub open spec fn initial(min_size: nat, max_size: nat) -> PoolState {
        PoolState {
            min_size,
            max_size,
            lifecycle: Lifecycle::Running,
            fresh: 0,
            recycled: Seq::empty(),
            idle: Seq::empty(),
            leased: Seq::empty(),
            connecting: Seq::empty(),
            waiters: Seq::empty(),
        }
    }

    /// The identity that the next new connection gets.
    pub open spec fn next_identity(self) -> u32 {
        if self.recycled.len() > 0 {
            self.recycled.last()
        } else {
            self.fresh as u32
        }
    }

    /// The pool after a place for a new connection has been set aside.
    pub open spec fn reserve(self) -> PoolState {
        if self.recycled.len() > 0 {
            PoolState {
                recycled: self.recycled.drop_last(),
                connecting: self.connecting.push(self.recycled.last()),
                ..self
            }
        } else {
            PoolState {
                fresh: self.fresh + 1,
                connecting: self.connecting.push(self.fresh as u32),
                ..self
            }
        }
    }

    /// A pool that shuts down is closed as soon as nothing is outstanding.
    pub open spec fn settle(self) -> PoolState {
        if self.lifecycle is Closing && self.outstanding() == 0 {
            PoolState { lifecycle: Lifecycle::Closed, ..self }
        } else {
            self
        }
    }

    /// The place of `conn`, which holds no session any more, passes to the
    /// first waiter, or becomes free if nobody waits.
    pub open spec fn vacate(self, conn: u32) -> (PoolState, Release) {
        if self.lifecycle is Running && self.waiters.len() > 0 {
            (
                PoolState {
                    connecting: self.connecting.push(conn),
                    waiters: self.waiters.drop_first(),
                    ..self
                },
                Release::Replace(self.waiters[0]),
            )
        } else {
            (PoolState { recycled: self.recycled.push(conn), ..self }.settle(), Release::Discard)
        }
    }

    /// The caller `waiter` asks for a connection.
    pub open spec fn acquire(self, waiter: u64) -> (PoolState, Acquire) {
        if !(self.lifecycle is Running) {
            (self, Acquire::Closed)
        } else if self.idle.len() > 0 {
            (
                PoolState {
                    idle: self.idle.drop_first(),
                    leased: self.leased.push(self.idle[0]),
                    ..self
                },
                Acquire::Lease(self.idle[0]),
            )
        } else if self.size() < self.max_size {
            (self.reserve(), Acquire::Connect(self.next_identity()))
        } else if self.waiters.contains(waiter) {
            (self, Acquire::Wait)
        } else {
            (PoolState { waiters: self.waiters.push(waiter), ..self }, Acquire::Wait)
        }
    }

    /// The lease of `conn` comes back; `usable` says whether the connection
    /// can serve another caller.
    pub open spec fn release(self, conn: u32, usable: bool) -> (PoolState, Release) {
        if !self.leased.contains(conn) {
            (self, Release::Unknown)
        } else if usable && self.lifecycle is Running {
            if self.waiters.len() > 0 {
                (
                    PoolState { waiters: self.waiters.drop_first(), ..self },
                    Release::Handoff(self.waiters[0]),
                )
            } else {
                (
                    PoolState {
                        leased: self.leased.remove_value(conn),
                        idle: self.idle.push(conn),
                        ..self
                    },
                    Release::Idle,
                )
            }
        } else {
            PoolState { leased: self.leased.remove_value(conn), ..self }.vacate(conn)
        }
    }

    /// The connection for the place `conn` has been established.
    pub open spec fn connected(self, conn: u32) -> (PoolState, Connected) {
        if !self.connecting.contains(conn) {
            (self, Connected::Unknown)
        } else if self.lifecycle is Running {
            (
                PoolState {
                    connecting: self.connecting.remove_value(conn),
                    leased: self.leased.push(conn),
                    ..self
                },
                Connected::Leased,
            )
        } else {
            (
                PoolState {
                    connecting: self.connecting.remove_value(conn),
                    recycled: self.recycled.push(conn),
                    ..self
                }.settle(),
                Connected::Rejected,
            )
        }
    }

    /// The connection for the place `conn` could not be established.
    pub open spec fn connect_failed(self, conn: u32) -> (PoolState, Release) {
        if !self.connecting.contains(conn) {
            (self, Release::Unknown)
        } else {
            PoolState { connecting: self.connecting.remove_value(conn), ..self }.vacate(conn)
        }
    }

    /// The caller `waiter` gives up waiting. The flag says whether it was
    /// still queued.
    pub open spec fn cancel(self, waiter: u64) -> (PoolState, bool) {
        (
            PoolState { waiters: self.waiters.remove_value(waiter), ..self },
            self.waiters.contains(waiter),
        )
    }

    /// The idle connection `conn` is taken out of the pool to be closed. The
    /// flag says whether it was idle.
    pub open spec fn retire(self, conn: u32) -> (PoolState, bool) {
        if self.idle.contains(conn) {
            (
                PoolState {
                    idle: self.idle.remove_value(conn),
                    recycled: self.recycled.push(conn),
                    ..self
                },
                true,
            )
        } else {
            (self, false)
        }
    }

    /// A place is set aside for a connection that brings the pool nearer to
    /// its minimum size, if it is below it.
    pub open spec fn replenish(self) -> (PoolState, Option<u32>) {
        if self.lifecycle is Running && self.size() < self.min_size {
            (self.reserve(), Some(self.next_identity()))
        } else {
            (self, None)
        }
    }

    /// The pool is told to shut down. The idle connections leave the pool
    /// to be closed, and the waiters are sent away.
    pub open spec fn close(self) -> PoolState {
        if self.lifecycle is Running {
            PoolState {
                lifecycle: Lifecycle::Closing,
                recycled: self.recycled + self.idle,
                idle: Seq::empty(),
                waiters: Seq::empty(),
                ..self
            }.settle()
        } else {
            self
        }
    }

    /// The pool after one request.
    pub open spec fn step(self, event: Event) -> PoolState {
        match event {
            Event::Acquire(waiter) => self.acquire(waiter).0,
            Event::Release(conn, usable) => self.release(conn, usable).0,
            Event::Connected(conn) => self.connected(conn).0,
            Event::ConnectFailed(conn) => self.connect_failed(conn).0,
            Event::Cancel(waiter) => self.cancel(waiter).0,
            Event::Retire(conn) => self.retire(conn).0,
            Event::Replenish => self.replenish().0,
            Event::Close => self.close(),
        }
    }

    /// The pool after a run of requests, one after the other.
    pub open spec fn run(self, events: Seq<Event>) -> PoolState
        decreases events.len(),
    {
        if events.len() == 0 {
            self
        } else {
            self.run(events.drop_last()).step(events.last())
        }
    }
}

} // verus!
