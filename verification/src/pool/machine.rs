//! The pool itself: the state, held in vectors, and the requests that move it.

use vstd::prelude::*;
use crate::pool::laws::{
    lemma_acquire_wf, lemma_cancel_wf, lemma_close_wf, lemma_connect_failed_wf,
    lemma_connected_wf, lemma_initial_wf, lemma_release_wf, lemma_replenish_wf, lemma_retire_wf,
};
use crate::pool::model::{Acquire, Connected, Lifecycle, PoolState, Release};
use crate::pool::options::PoolOptions;
use crate::pool::seqs::{lemma_index_of_first, lemma_remove_value};

verus! {

/// The index at which `x` stands first in `v`.
fn position(v: &Vec<u32>, x: u32) -> (r: Option<usize>)
    ensures
        match r {
            Some(k) => k < v@.len() && v@[k as int] == x && v@.contains(x),
            None => !v@.contains(x),
        },
{
    let mut k: usize = 0;
    while k < v.len()
        invariant
            k <= v@.len(),
            forall|j: int| 0 <= j < k ==> v@[j] != x,
        decreases v@.len() - k,
    {
        if v[k] == x {
            return Some(k);
        }
        k += 1;
    }
    None
}

/// The index at which the waiter `x` stands first in `v`.
fn place_in_line(v: &Vec<u64>, x: u64) -> (r: Option<usize>)
    ensures
        match r {
            Some(k) => k < v@.len() && v@[k as int] == x && v@.contains(x),
            None => !v@.contains(x),
        },
{
    let mut k: usize = 0;
    while k < v.len()
        invariant
            k <= v@.len(),
            forall|j: int| 0 <= j < k ==> v@[j] != x,
        decreases v@.len() - k,
    {
        if v[k] == x {
            return Some(k);
        }
        k += 1;
    }
    None
}

/// What the owner of a pool has to do once the pool is told to shut down.
pub struct Shutdown {
    /// The connections to close: those that were idle.
    pub close: Vec<u32>,
    /// The callers to wake and to tell that the pool is closed.
    pub wake: Vec<u64>,
}

/// The state of a pool, held in vectors.
struct Core {
    options: PoolOptions,
    lifecycle: Lifecycle,
    fresh: u32,
    recycled: Vec<u32>,
    idle: Vec<u32>,
    leased: Vec<u32>,
    connecting: Vec<u32>,
    waiters: Vec<u64>,
}

impl View for Core {
    type V = PoolState;

    closed spec fn view(&self) -> PoolState {
        PoolState {
            min_size: self.options.min_size as nat,
            max_size: self.options.max_size as nat,
            lifecycle: self.lifecycle,
            fresh: self.fresh as nat,
            recycled: self.recycled@,
            idle: self.idle@,
            leased: self.leased@,
            connecting: self.connecting@,
            waiters: self.waiters@,
        }
    }
}

impl Core {
    /// What always holds of a pool.
    spec fn wf(&self) -> bool {
        self@.wf()
    }

    /// The options that the pool was made with.
    spec fn config(&self) -> PoolOptions {
        self.options
    }

    /// The state of a new pool with the given options.
    fn new(options: PoolOptions) -> (core: Core)
        requires
            options.valid(),
        ensures
            core.wf(),
            core.config() == options,
            core@ == PoolState::initial(options.min_size as nat, options.max_size as nat),
    {
        proof {
            lemma_initial_wf(options.min_size as nat, options.max_size as nat);
        }
        Core {
            options,
            lifecycle: Lifecycle::Running,
            fresh: 0,
            recycled: Vec::new(),
            idle: Vec::new(),
            leased: Vec::new(),
            connecting: Vec::new(),
            waiters: Vec::new(),
        }
    }

    /// The state of a pool without room, which stands in while a request is
    /// worked on: new, running and empty, with room for no connection.
    fn vacant() -> (core: Core)
        ensures
            core.wf(),
            core@ == PoolState::initial(0, 0),
            core.config() == (PoolOptions {
                min_size: 0,
                max_size: 0,
                connect_timeout: 30_000,
                acquire_timeout: 30_000,
                idle_timeout: None,
            }),
    {
        Core::new(PoolOptions::new().min_size(0).max_size(0))
    }

    /// Sets a place aside for a new connection and gives its identity.
    fn reserve(&mut self) -> (conn: u32)
        requires
            old(self).wf(),
            old(self)@.lifecycle is Running,
            old(self)@.size() < old(self)@.max_size,
        ensures
            final(self)@ == old(self)@.reserve(),
            conn == old(self)@.next_identity(),
            final(self).config() == old(self).config(),
    {
        let conn = match self.recycled.pop() {
            Some(conn) => conn,
            None => {
                let conn = self.fresh;
                self.fresh = conn + 1;
                conn
            },
        };
        self.connecting.push(conn);
        conn
    }

    /// Moves a pool that shuts down to `Closed` once nothing is outstanding.
    fn settle(&mut self)
        ensures
            final(self)@ == old(self)@.settle(),
            final(self).config() == old(self).config(),
    {
        match self.lifecycle {
            Lifecycle::Closing => {
                if self.leased.len() == 0 && self.connecting.len() == 0 {
                    self.lifecycle = Lifecycle::Closed;
                }
            },
            _ => {},
        }
    }

    /// Gives the place of `conn` to the first waiter, or frees it.
    fn vacate(&mut self, conn: u32) -> (r: Release)
        requires
            old(self)@.waiters.no_duplicates(),
        ensures
            (final(self)@, r) == old(self)@.vacate(conn),
            final(self).config() == old(self).config(),
    {
        let running = match self.lifecycle {
            Lifecycle::Running => true,
            _ => false,
        };
        if running && self.waiters.len() > 0 {
            let waiter = self.waiters.remove(0);
            self.connecting.push(conn);
            assert(self.waiters@ =~= old(self)@.waiters.drop_first());
            Release::Replace(waiter)
        } else {
            self.recycled.push(conn);
            self.settle();
            Release::Discard
        }
    }

    /// The caller `waiter` asks for a connection.
    fn acquire(&mut self, waiter: u64) -> (r: Acquire)
        requires
            old(self).wf(),
        ensures
            final(self).wf(),
            final(self).config() == old(self).config(),
            (final(self)@, r) == old(self)@.acquire(waiter),
    {
        proof {
            lemma_acquire_wf(self@, waiter);
        }
        match self.lifecycle {
            Lifecycle::Running => {},
            _ => {
                return Acquire::Closed;
            },
        }
        if self.idle.len() > 0 {
            let conn = self.idle.remove(0);
            self.leased.push(conn);
            assert(self.idle@ =~= old(self)@.idle.drop_first());
            return Acquire::Lease(conn);
        }
        if self.leased.len() + self.connecting.len() < self.options.max_size as usize {
            let conn = self.reserve();
            return Acquire::Connect(conn);
        }
        if place_in_line(&self.waiters, waiter).is_none() {
            self.waiters.push(waiter);
        }
        Acquire::Wait
    }

    /// The lease of `conn` comes back.
    fn release(&mut self, conn: u32, usable: bool) -> (r: Release)
        requires
            old(self).wf(),
        ensures
            final(self).wf(),
            final(self).config() == old(self).config(),
            (final(self)@, r) == old(self)@.release(conn, usable),
    {
        proof {
            lemma_release_wf(self@, conn, usable);
        }
        let k = match position(&self.leased, conn) {
            Some(k) => k,
            None => {
                return Release::Unknown;
            },
        };
        proof {
            lemma_index_of_first(self.leased@, k as int);
        }
        let running = match self.lifecycle {
            Lifecycle::Running => true,
            _ => false,
        };
        if usable && running {
            if self.waiters.len() > 0 {
                let waiter = self.waiters.remove(0);
                assert(self.waiters@ =~= old(self)@.waiters.drop_first());
                Release::Handoff(waiter)
            } else {
                self.leased.remove(k);
                self.idle.push(conn);
                Release::Idle
            }
        } else {
            self.leased.remove(k);
            self.vacate(conn)
        }
    }

    /// The connection for the place `conn` has been established.
    fn connected(&mut self, conn: u32) -> (r: Connected)
        requires
            old(self).wf(),
        ensures
            final(self).wf(),
            final(self).config() == old(self).config(),
            (final(self)@, r) == old(self)@.connected(conn),
    {
        proof {
            lemma_connected_wf(self@, conn);
        }
        let k = match position(&self.connecting, conn) {
            Some(k) => k,
            None => {
                return Connected::Unknown;
            },
        };
        proof {
            lemma_index_of_first(self.connecting@, k as int);
        }
        self.connecting.remove(k);
        match self.lifecycle {
            Lifecycle::Running => {
                self.leased.push(conn);
                Connected::Leased
            },
            _ => {
                self.recycled.push(conn);
                self.settle();
                Connected::Rejected
            },
        }
    }

    /// The connection for the place `conn` could not be established.
    fn connect_failed(&mut self, conn: u32) -> (r: Release)
        requires
            old(self).wf(),
        ensures
            final(self).wf(),
            final(self).config() == old(self).config(),
            (final(self)@, r) == old(self)@.connect_failed(conn),
    {
        proof {
            lemma_connect_failed_wf(self@, conn);
        }
        let k = match position(&self.connecting, conn) {
            Some(k) => k,
            None => {
                return Release::Unknown;
            },
        };
        proof {
            lemma_index_of_first(self.connecting@, k as int);
        }
        self.connecting.remove(k);
        self.vacate(conn)
    }

    /// The caller `waiter` gives up waiting.
    fn cancel(&mut self, waiter: u64) -> (waiting: bool)
        requires
            old(self).wf(),
        ensures
            final(self).wf(),
            final(self).config() == old(self).config(),
            (final(self)@, waiting) == old(self)@.cancel(waiter),
    {
        proof {
            lemma_cancel_wf(self@, waiter);
            lemma_remove_value(self@.waiters, waiter);
        }
        match place_in_line(&self.waiters, waiter) {
            Some(k) => {
                proof {
                    lemma_index_of_first(self.waiters@, k as int);
                }
                self.waiters.remove(k);
                true
            },
            None => false,
        }
    }

    /// The idle connection `conn` is taken out to be closed.
    fn retire(&mut self, conn: u32) -> (retired: bool)
        requires
            old(self).wf(),
        ensures
            final(self).wf(),
            final(self).config() == old(self).config(),
            (final(self)@, retired) == old(self)@.retire(conn),
    {
        proof {
            lemma_retire_wf(self@, conn);
        }
        match position(&self.idle, conn) {
            Some(k) => {
                proof {
                    lemma_index_of_first(self.idle@, k as int);
                }
                self.idle.remove(k);
                self.recycled.push(conn);
                true
            },
            None => false,
        }
    }

    /// Sets a place aside if the pool is below its minimum size.
    fn replenish(&mut self) -> (r: Option<u32>)
        requires
            old(self).wf(),
        ensures
            final(self).wf(),
            final(self).config() == old(self).config(),
            (final(self)@, r) == old(self)@.replenish(),
    {
        proof {
            lemma_replenish_wf(self@);
        }
        let running = match self.lifecycle {
            Lifecycle::Running => true,
            _ => false,
        };
        if running && self.idle.len() + self.leased.len() + self.connecting.len()
            < self.options.min_size as usize {
            Some(self.reserve())
        } else {
            None
        }
    }

    /// The pool is told to shut down.
    fn close(&mut self) -> (r: Shutdown)
        requires
            old(self).wf(),
        ensures
            final(self).wf(),
            final(self).config() == old(self).config(),
            final(self)@ == old(self)@.close(),
            old(self)@.lifecycle is Running ==> r.close@ == old(self)@.idle && r.wake@ == old(
                self,
            )@.waiters,
            !(old(self)@.lifecycle is Running) ==> r.close@.len() == 0 && r.wake@.len() == 0,
    {
        proof {
            lemma_close_wf(self@);
        }
        let mut close: Vec<u32> = Vec::new();
        let mut wake: Vec<u64> = Vec::new();
        match self.lifecycle {
            Lifecycle::Running => {},
            _ => {
                return Shutdown { close, wake };
            },
        }
        std::mem::swap(&mut self.idle, &mut close);
        std::mem::swap(&mut self.waiters, &mut wake);
        self.recycled.extend_from_slice(close.as_slice());
        assert(self.recycled@ =~= old(self)@.recycled + old(self)@.idle);
        self.lifecycle = Lifecycle::Closing;
        self.settle();
        Shutdown { close, wake }
    }
}

/// A bounded pool of connections.
pub struct Pool {
    core: Core,
}

impl View for Pool {
    type V = PoolState;

    closed spec fn view(&self) -> PoolState {
        self.core@
    }
}

impl Pool {
    #[verifier::type_invariant]
    closed spec fn inv(self) -> bool {
        self.core.wf()
    }

    /// What always holds of a pool.
    pub open spec fn wf(&self) -> bool {
        self@.wf()
    }

    /// The options that the pool was made with.
    pub closed spec fn config(&self) -> PoolOptions {
        self.core.config()
    }

    /// A new pool, running and empty; `None` where the options are not valid.
    pub fn new(options: PoolOptions) -> (r: Option<Pool>)
        ensures
            match r {
                Some(pool) => {
                    &&& options.valid()
                    &&& pool.wf()
                    &&& pool.config() == options
                    &&& pool@ == PoolState::initial(options.min_size as nat, options.max_size as nat)
                },
                None => !options.valid(),
            },
    {
        if options.is_valid() {
            Some(Pool { core: Core::new(options) })
        } else {
            None
        }
    }

    /// The options that the pool was made with.
    pub fn options(&self) -> (options: PoolOptions)
        ensures
            options == self.config(),
            options.min_size == self@.min_size,
            options.max_size == self@.max_size,
    {
        self.core.options
    }

    /// Where the pool stands in its life.
    pub fn lifecycle(&self) -> (lifecycle: Lifecycle)
        ensures
            lifecycle == self@.lifecycle,
    {
        self.core.lifecycle
    }

    /// Whether every lease has come back and every connection is closed.
    pub fn is_closed(&self) -> (closed: bool)
        ensures
            closed == (self@.lifecycle is Closed),
    {
        match self.core.lifecycle {
            Lifecycle::Closed => true,
            _ => false,
        }
    }

    /// The connections that the pool owns: idle, leased or being established.
    pub fn size(&self) -> (size: u32)
        ensures
            self.wf(),
            size == self@.size(),
            size <= self@.max_size,
    {
        proof {
            use_type_invariant(self);
        }
        (self.core.idle.len() + self.core.leased.len() + self.core.connecting.len()) as u32
    }

    /// The idle connections.
    pub fn idle_count(&self) -> (count: u32)
        ensures
            self.wf(),
            count == self@.idle.len(),
    {
        proof {
            use_type_invariant(self);
        }
        self.core.idle.len() as u32
    }

    /// The connections that callers hold or are establishing.
    pub fn outstanding_count(&self) -> (count: u32)
        ensures
            self.wf(),
            count == self@.outstanding(),
    {
        proof {
            use_type_invariant(self);
        }
        (self.core.leased.len() + self.core.connecting.len()) as u32
    }

    /// The callers that wait for a connection.
    pub fn waiting_count(&self) -> (count: usize)
        ensures
            count == self@.waiters.len(),
    {
        self.core.waiters.len()
    }

    /// Whether `conn` is leased to a caller.
    pub fn is_leased(&self, conn: u32) -> (leased: bool)
        ensures
            leased == self@.leased.contains(conn),
    {
        position(&self.core.leased, conn).is_some()
    }

    /// The caller `waiter` asks for a connection.
    ///
    /// An idle connection is leased at once, the one that has lain idle
    /// longest first. With none idle and room left the caller is told to
    /// establish a connection. In a full pool the caller joins the queue of
    /// waiters, at its end. A pool that shuts down sends the caller away.
    pub fn acquire(&mut self, waiter: u64) -> (r: Acquire)
        ensures
            old(self).wf(),
            final(self).wf(),
            final(self).config() == old(self).config(),
            (final(self)@, r) == old(self)@.acquire(waiter),
    {
        proof {
            use_type_invariant(&*self);
        }
        let mut core = Core::vacant();
        std::mem::swap(&mut self.core, &mut core);
        let r = core.acquire(waiter);
        self.core = core;
        r
    }

    /// The lease of `conn` comes back; `usable` says whether the connection
    /// can serve another caller.
    ///
    /// A usable connection passes to the first waiter, or lies idle if
    /// nobody waits. One that is not usable, or that comes back to a pool
    /// that shuts down, leaves the pool; its place passes to the first
    /// waiter, or becomes free.
    pub fn release(&mut self, conn: u32, usable: bool) -> (r: Release)
        ensures
            old(self).wf(),
            final(self).wf(),
            final(self).config() == old(self).config(),
            (final(self)@, r) == old(self)@.release(conn, usable),
    {
        proof {
            use_type_invariant(&*self);
        }
        let mut core = Core::vacant();
        std::mem::swap(&mut self.core, &mut core);
        let r = core.release(conn, usable);
        self.core = core;
        r
    }

    /// The connection for the place `conn` has been established.
    ///
    /// In a running pool the caller who established it holds its lease. A
    /// pool that shuts down rejects it.
    pub fn connected(&mut self, conn: u32) -> (r: Connected)
        ensures
            old(self).wf(),
            final(self).wf(),
            final(self).config() == old(self).config(),
            (final(self)@, r) == old(self)@.connected(conn),
    {
        proof {
            use_type_invariant(&*self);
        }
        let mut core = Core::vacant();
        std::mem::swap(&mut self.core, &mut core);
        let r = core.connected(conn);
        self.core = core;
        r
    }

    /// The connection for the place `conn` could not be established. The
    /// place passes to the first waiter, or becomes free.
    pub fn connect_failed(&mut self, conn: u32) -> (r: Release)
        ensures
            old(self).wf(),
            final(self).wf(),
            final(self).config() == old(self).config(),
            (final(self)@, r) == old(self)@.connect_failed(conn),
    {
        proof {
            use_type_invariant(&*self);
        }
        let mut core = Core::vacant();
        std::mem::swap(&mut self.core, &mut core);
        let r = core.connect_failed(conn);
        self.core = core;
        r
    }

    /// The caller `waiter` gives up waiting, because its time has run out
    /// or because it was abandoned. The flag says whether it was still
    /// queued; if not, it has been given a lease or a place in the meantime.
    pub fn cancel(&mut self, waiter: u64) -> (waiting: bool)
        ensures
            old(self).wf(),
            final(self).wf(),
            final(self).config() == old(self).config(),
            (final(self)@, waiting) == old(self)@.cancel(waiter),
    {
        proof {
            use_type_invariant(&*self);
        }
        let mut core = Core::vacant();
        std::mem::swap(&mut self.core, &mut core);
        let waiting = core.cancel(waiter);
        self.core = core;
        waiting
    }

    /// The idle connection `conn` is taken out of the pool to be closed.
    /// The flag says whether it was idle.
    pub fn retire(&mut self, conn: u32) -> (retired: bool)
        ensures
            old(self).wf(),
            final(self).wf(),
            final(self).config() == old(self).config(),
            (final(self)@, retired) == old(self)@.retire(conn),
    {
        proof {
            use_type_invariant(&*self);
        }
        let mut core = Core::vacant();
        std::mem::swap(&mut self.core, &mut core);
        let retired = core.retire(conn);
        self.core = core;
        retired
    }

    /// A place is set aside for a connection that brings a running pool
    /// nearer to its minimum size, if it is below it.
    pub fn replenish(&mut self) -> (r: Option<u32>)
        ensures
            old(self).wf(),
            final(self).wf(),
            final(self).config() == old(self).config(),
            (final(self)@, r) == old(self)@.replenish(),
    {
        proof {
            use_type_invariant(&*self);
        }
        let mut core = Core::vacant();
        std::mem::swap(&mut self.core, &mut core);
        let r = core.replenish();
        self.core = core;
        r
    }

    /// The pool is told to shut down.
    ///
    /// From now on no lease is handed out. The idle connections leave the
    /// pool to be closed and the waiters are sent away. The pool is closed
    /// once the last outstanding lease has come back, at once if there is
    /// none. Telling a pool twice changes nothing.
    pub fn close(&mut self) -> (r: Shutdown)
        ensures
            old(self).wf(),
            final(self).wf(),
            final(self).config() == old(self).config(),
            final(self)@ == old(self)@.close(),
            old(self)@.lifecycle is Running ==> r.close@ == old(self)@.idle && r.wake@ == old(
                self,
            )@.waiters,
            !(old(self)@.lifecycle is Running) ==> r.close@.len() == 0 && r.wake@.len() == 0,
    {
        proof {
            use_type_invariant(&*self);
        }
        let mut core = Core::vacant();
        std::mem::swap(&mut self.core, &mut core);
        let r = core.close();
        self.core = core;
        r
    }
}

} // verus!
