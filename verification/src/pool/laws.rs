//! What holds of every pool, whatever is asked of it and in whatever order.

use vstd::prelude::*;
use crate::pool::model::{apart, Acquire, Connected, Event, Lifecycle, PoolState, Release};
use crate::pool::seqs::{
    lemma_drop_first, lemma_drop_last, lemma_join, lemma_push, lemma_remove_value,
};

verus! {

/// A new pool is well formed.
pub proof fn lemma_initial_wf(min_size: nat, max_size: nat)
    requires
        min_size <= max_size <= u32::MAX,
    ensures
        PoolState::initial(min_size, max_size).wf(),
{
}

/// Setting a place aside keeps a pool with room well formed, and the place
/// gets an identity that nothing in the pool has.
pub proof fn lemma_reserve_wf(s: PoolState)
    requires
        s.wf(),
        s.lifecycle is Running,
        s.size() < s.max_size,
    ensures
        s.reserve().wf(),
        !s.owns(s.next_identity()),
        s.reserve().connecting == s.connecting.push(s.next_identity()),
        s.reserve().size() == s.size() + 1,
{
    let id = s.next_identity();
    lemma_push(s.connecting, id);
    if s.recycled.len() > 0 {
        assert(s.recycled[s.recycled.len() - 1] == id);
        assert(s.recycled.contains(id));
        lemma_drop_last(s.recycled);
    } else {
        assert(id == s.fresh);
    }
}

/// The place of a connection that has just left the leased or the
/// connecting ones is given away without harm to the pool.
proof fn lemma_vacate_wf(s: PoolState, before: PoolState, conn: u32)
    requires
        before.wf(),
        (before.leased.contains(conn) && s == (PoolState {
            leased: before.leased.remove_value(conn),
            ..before
        })) || (before.connecting.contains(conn) && s == (PoolState {
            connecting: before.connecting.remove_value(conn),
            ..before
        })),
    ensures
        s.vacate(conn).0.wf(),
{
    lemma_remove_value(before.leased, conn);
    lemma_remove_value(before.connecting, conn);
    lemma_push(s.connecting, conn);
    lemma_push(s.recycled, conn);
    if s.waiters.len() > 0 {
        lemma_drop_first(s.waiters);
    }
}

/// Asking for a connection keeps the pool well formed.
pub proof fn lemma_acquire_wf(s: PoolState, waiter: u64)
    requires
        s.wf(),
    ensures
        s.acquire(waiter).0.wf(),
{
    if !(s.lifecycle is Running) {
    } else if s.idle.len() > 0 {
        assert(s.idle.contains(s.idle[0]));
        lemma_drop_first(s.idle);
        lemma_push(s.leased, s.idle[0]);
    } else if s.size() < s.max_size {
        lemma_reserve_wf(s);
    } else {
        lemma_push(s.waiters, waiter);
    }
}

/// Giving a lease back keeps the pool well formed.
pub proof fn lemma_release_wf(s: PoolState, conn: u32, usable: bool)
    requires
        s.wf(),
    ensures
        s.release(conn, usable).0.wf(),
{
    if !s.leased.contains(conn) {
    } else if usable && s.lifecycle is Running {
        if s.waiters.len() > 0 {
            lemma_drop_first(s.waiters);
        } else {
            lemma_remove_value(s.leased, conn);
            lemma_push(s.idle, conn);
        }
    } else {
        lemma_vacate_wf(PoolState { leased: s.leased.remove_value(conn), ..s }, s, conn);
    }
}

/// Reporting an established connection keeps the pool well formed.
pub proof fn lemma_connected_wf(s: PoolState, conn: u32)
    requires
        s.wf(),
    ensures
        s.connected(conn).0.wf(),
{
    if s.connecting.contains(conn) {
        lemma_remove_value(s.connecting, conn);
        lemma_push(s.leased, conn);
        lemma_push(s.recycled, conn);
    }
}

/// Reporting a failed connection keeps the pool well formed.
pub proof fn lemma_connect_failed_wf(s: PoolState, conn: u32)
    requires
        s.wf(),
    ensures
        s.connect_failed(conn).0.wf(),
{
    if s.connecting.contains(conn) {
        lemma_vacate_wf(PoolState { connecting: s.connecting.remove_value(conn), ..s }, s, conn);
    }
}

/// Giving up waiting keeps the pool well formed.
pub proof fn lemma_cancel_wf(s: PoolState, waiter: u64)
    requires
        s.wf(),
    ensures
        s.cancel(waiter).0.wf(),
{
    lemma_remove_value(s.waiters, waiter);
}

/// Taking an idle connection out keeps the pool well formed.
pub proof fn lemma_retire_wf(s: PoolState, conn: u32)
    requires
        s.wf(),
    ensures
        s.retire(conn).0.wf(),
{
    if s.idle.contains(conn) {
        lemma_remove_value(s.idle, conn);
        lemma_push(s.recycled, conn);
    }
}

/// Filling up toward the minimum size keeps the pool well formed.
pub proof fn lemma_replenish_wf(s: PoolState)
    requires
        s.wf(),
    ensures
        s.replenish().0.wf(),
{
    if s.lifecycle is Running && s.size() < s.min_size {
        lemma_reserve_wf(s);
    }
}

/// Shutting down keeps the pool well formed.
pub proof fn lemma_close_wf(s: PoolState)
    requires
        s.wf(),
    ensures
        s.close().wf(),
{
    if s.lifecycle is Running {
        lemma_join(s.recycled, s.idle);
    }
}

/// No request breaks the pool.
pub proof fn lemma_step_wf(s: PoolState, event: Event)
    requires
        s.wf(),
    ensures
        s.step(event).wf(),
{
    match event {
        Event::Acquire(waiter) => lemma_acquire_wf(s, waiter),
        Event::Release(conn, usable) => lemma_release_wf(s, conn, usable),
        Event::Connected(conn) => lemma_connected_wf(s, conn),
        Event::ConnectFailed(conn) => lemma_connect_failed_wf(s, conn),
        Event::Cancel(waiter) => lemma_cancel_wf(s, waiter),
        Event::Retire(conn) => lemma_retire_wf(s, conn),
        Event::Replenish => lemma_replenish_wf(s),
        Event::Close => lemma_close_wf(s),
    }
}

/// No run of requests breaks the pool.
pub proof fn lemma_run_wf(s: PoolState, events: Seq<Event>)
    requires
        s.wf(),
    ensures
        s.run(events).wf(),
    decreases events.len(),
{
    if events.len() > 0 {
        lemma_run_wf(s, events.drop_last());
        lemma_step_wf(s.run(events.drop_last()), events.last());
    }
}

/// The pool never owns more connections than its largest size, and no
/// identity is in two places: not leased twice, and not idle, recycled or
/// being established while it is leased.
pub proof fn lemma_capacity(s: PoolState)
    requires
        s.wf(),
    ensures
        s.outstanding() + s.idle.len() <= s.max_size,
        s.leased.no_duplicates(),
        apart(s.idle, s.leased),
        apart(s.leased, s.connecting),
        apart(s.recycled, s.leased),
{
}

/// Whatever is asked of a pool, and in whatever order, it never owns more
/// connections than its largest size and never has an identity leased twice.
pub proof fn lemma_capacity_always(s: PoolState, events: Seq<Event>)
    requires
        s.wf(),
    ensures
        s.run(events).outstanding() + s.run(events).idle.len() <= s.run(events).max_size,
        s.run(events).max_size == s.max_size,
        s.run(events).leased.no_duplicates(),
    decreases events.len(),
{
    lemma_run_wf(s, events);
    if events.len() > 0 {
        lemma_capacity_always(s, events.drop_last());
    }
}

/// The identity that a step leases to a caller, if the step leases one that
/// was not leased before.
pub open spec fn newly_leased(s: PoolState, event: Event) -> Option<u32> {
    match event {
        Event::Acquire(waiter) => match s.acquire(waiter).1 {
            Acquire::Lease(conn) => Some(conn),
            _ => None,
        },
        Event::Connected(conn) => match s.connected(conn).1 {
            Connected::Leased => Some(conn),
            _ => None,
        },
        _ => None,
    }
}

/// A lease is exclusive. A connection that a step leases was held by
/// nobody before, and no other step adds to the leased connections: where a
/// lease passes from one caller to a waiter, the one ends as the other
/// begins.
pub proof fn lemma_lease_is_exclusive(s: PoolState, event: Event)
    requires
        s.wf(),
    ensures
        match newly_leased(s, event) {
            Some(conn) => !s.leased.contains(conn) && s.step(event).leased == s.leased.push(conn),
            None => forall|conn: u32| #[trigger]
                s.step(event).leased.contains(conn) ==> s.leased.contains(conn),
        },
{
    lemma_step_wf(s, event);
    match event {
        Event::Acquire(waiter) => {
            if s.lifecycle is Running && s.idle.len() > 0 {
                assert(s.idle.contains(s.idle[0]));
            }
        },
        Event::Release(conn, usable) => {
            lemma_remove_value(s.leased, conn);
        },
        _ => {},
    }
}

/// The waiter that a step wakes with a lease or with a place in the pool.
pub open spec fn woken(s: PoolState, event: Event) -> Option<u64> {
    match event {
        Event::Release(conn, usable) => match s.release(conn, usable).1 {
            Release::Handoff(waiter) => Some(waiter),
            Release::Replace(waiter) => Some(waiter),
            _ => None,
        },
        Event::ConnectFailed(conn) => match s.connect_failed(conn).1 {
            Release::Replace(waiter) => Some(waiter),
            _ => None,
        },
        _ => None,
    }
}

/// Waiters are served in the order of their arrival. Whoever is woken is
/// the first of the queue, and the others keep their order behind. A step
/// that wakes nobody leaves the queue as it is, but for a caller who joins
/// at the end, one who gives up, or the shutdown, which empties it.
pub proof fn lemma_first_come_first_served(s: PoolState, event: Event)
    requires
        s.wf(),
    ensures
        match woken(s, event) {
            Some(waiter) => {
                &&& s.waiters.len() > 0
                &&& waiter == s.waiters[0]
                &&& s.step(event).waiters == s.waiters.drop_first()
            },
            None => match event {
                Event::Acquire(waiter) => s.step(event).waiters == s.waiters || (
                !s.waiters.contains(waiter) && s.step(event).waiters == s.waiters.push(waiter)),
                Event::Cancel(waiter) => s.step(event).waiters == s.waiters.remove_value(waiter),
                Event::Close => s.step(event).waiters == s.waiters || s.step(event).waiters
                    == Seq::<u64>::empty(),
                _ => s.step(event).waiters == s.waiters,
            },
        },
{
}

/// Nobody overtakes. A caller who arrives while others wait is not served
/// but queued behind them.
pub proof fn lemma_no_overtaking(s: PoolState, waiter: u64)
    requires
        s.wf(),
        s.waiters.len() > 0,
    ensures
        s.acquire(waiter).1 == Acquire::Wait,
        s.acquire(waiter).0.waiters.len() > 0,
        s.acquire(waiter).0.waiters[0] == s.waiters[0],
{
}

/// The requests that give the leases `conns` back, usable, one after the
/// other.
pub open spec fn releases(conns: Seq<u32>) -> Seq<Event> {
    Seq::new(conns.len(), |k: int| Event::Release(conns[k], true))
}

/// With callers waiting in a running pool, connections that come back
/// usable go to the waiters in the order of their arrival: the `k`-th
/// connection to the `k`-th waiter.
pub proof fn lemma_handoffs_in_arrival_order(s: PoolState, conns: Seq<u32>, k: int)
    requires
        s.wf(),
        conns.len() <= s.waiters.len(),
        forall|j: int| 0 <= j < conns.len() ==> s.leased.contains(#[trigger] conns[j]),
        0 <= k < conns.len(),
    ensures
        s.run(releases(conns.take(k))).waiters == s.waiters.skip(k),
        s.run(releases(conns.take(k))).leased == s.leased,
        s.run(releases(conns.take(k))).release(conns[k], true).1 == Release::Handoff(
            s.waiters[k],
        ),
    decreases k,
{
    let events = releases(conns.take(k));
    lemma_run_wf(s, events);
    if k == 0 {
        assert(s.waiters.skip(0) =~= s.waiters);
    } else {
        lemma_handoffs_in_arrival_order(s, conns, k - 1);
        let before = s.run(releases(conns.take(k - 1)));
        assert(events.drop_last() =~= releases(conns.take(k - 1)));
        assert(events.last() == Event::Release(conns[k - 1], true));
        assert(s.run(events) == before.step(Event::Release(conns[k - 1], true)));
        assert(s.waiters.skip(k - 1).drop_first() =~= s.waiters.skip(k));
    }
}

/// A pool that is told to shut down hands out nothing any more: every
/// caller is sent away, and the pool stays as it is.
pub proof fn lemma_closing_pool_refuses(s: PoolState, waiter: u64)
    requires
        s.wf(),
    ensures
        s.close().acquire(waiter) == (s.close(), Acquire::Closed),
        s.close().replenish() == (s.close(), None::<u32>),
{
}

/// The life of a pool only moves forward: once it shuts down it never runs
/// again, and once it is closed it stays closed.
pub proof fn lemma_lifecycle_moves_forward(s: PoolState, event: Event)
    requires
        s.wf(),
    ensures
        !(s.lifecycle is Running) ==> !(s.step(event).lifecycle is Running),
        s.lifecycle is Closed ==> s.step(event) == s,
{
    if s.lifecycle is Closed {
        match event {
            Event::Cancel(waiter) => {
                lemma_remove_value(s.waiters, waiter);
            },
            _ => {},
        }
    }
}

/// While a pool shuts down, each request takes at most one connection out
/// of the hands of the callers, and none puts one in.
pub proof fn lemma_drain_step(s: PoolState, event: Event)
    requires
        s.wf(),
        !(s.lifecycle is Running),
    ensures
        s.outstanding() - 1 <= s.step(event).outstanding() <= s.outstanding(),
        s.step(event).lifecycle is Closed <==> s.step(event).outstanding() == 0,
{
    lemma_step_wf(s, event);
    match event {
        Event::Release(conn, usable) => {
            lemma_remove_value(s.leased, conn);
        },
        Event::Connected(conn) => {
            lemma_remove_value(s.connecting, conn);
        },
        Event::ConnectFailed(conn) => {
            lemma_remove_value(s.connecting, conn);
        },
        _ => {},
    }
}

/// A shutdown drains the pool. With leases outstanding the pool is not
/// closed at once, and it is closed exactly when the last of them has come
/// back: never before as many requests as there were leases.
pub proof fn lemma_close_drains(s: PoolState, events: Seq<Event>)
    requires
        s.wf(),
    ensures
        s.outstanding() > 0 ==> !(s.close().lifecycle is Closed),
        s.outstanding() == 0 ==> s.close().lifecycle is Closed,
        !(s.close().run(events).lifecycle is Running),
        s.close().run(events).lifecycle is Closed <==> s.close().run(events).outstanding() == 0,
        s.close().run(events).outstanding() >= s.outstanding() - events.len(),
    decreases events.len(),
{
    lemma_close_wf(s);
    if events.len() > 0 {
        let before = s.close().run(events.drop_last());
        lemma_close_drains(s, events.drop_last());
        lemma_run_wf(s.close(), events.drop_last());
        lemma_lifecycle_moves_forward(before, events.last());
        lemma_drain_step(before, events.last());
    }
}

/// Nobody waits in vain. Callers wait only in a running pool without an
/// idle connection and without room, so some connection is in the hands of
/// a caller; and whichever of them comes back next, usable or not, wakes
/// the first waiter, unless it is one still being established that
/// succeeds, which then is leased and comes back later.
pub proof fn lemma_waiters_are_served(s: PoolState, conn: u32, usable: bool)
    requires
        s.wf(),
        s.waiters.len() > 0,
    ensures
        s.lifecycle is Running,
        s.idle.len() == 0,
        s.outstanding() == s.max_size,
        s.leased.contains(conn) ==> woken(s, Event::Release(conn, usable)) == Some(s.waiters[0]),
        s.connecting.contains(conn) ==> woken(s, Event::ConnectFailed(conn)) == Some(
            s.waiters[0],
        ),
        s.connecting.contains(conn) ==> s.connected(conn).0.leased.contains(conn),
{
    lemma_push(s.leased, conn);
}

/// A caller who gives up waiting leaves the queue, and takes no wakeup
/// with it: the others wait on in their order.
pub proof fn lemma_cancel_leaves_queue(s: PoolState, waiter: u64)
    requires
        s.wf(),
    ensures
        !s.cancel(waiter).0.waiters.contains(waiter),
        forall|other: u64|
            other != waiter ==> (#[trigger] s.cancel(waiter).0.waiters.contains(other)
                <==> s.waiters.contains(other)),
        s.cancel(waiter).0.size() == s.size(),
{
    lemma_remove_value(s.waiters, waiter);
}

/// A connection that has left the pool never lies idle in it again. The
/// idle connections gain one only when a lease comes back usable to a
/// running pool, and then it is the connection of that lease.
pub proof fn lemma_only_usable_connections_idle(s: PoolState, event: Event, conn: u32)
    requires
        s.wf(),
        s.step(event).idle.contains(conn),
        !s.idle.contains(conn),
    ensures
        event == Event::Release(conn, true),
        s.lifecycle is Running,
        s.leased.contains(conn),
        !s.step(event).leased.contains(conn),
{
    lemma_step_wf(s, event);
    match event {
        Event::Acquire(waiter) => {
            if s.lifecycle is Running && s.idle.len() > 0 {
                lemma_drop_first(s.idle);
            }
        },
        Event::Release(other, usable) => {
            lemma_push(s.idle, other);
            lemma_remove_value(s.leased, other);
        },
        Event::Retire(other) => {
            lemma_remove_value(s.idle, other);
        },
        _ => {},
    }
}

} // verus!
