//! What holds of every pool, whatever is asked of it.

use vstd::prelude::*;
use crate::config::ServiceConfigView;
use crate::pool_state::{
    elapsed, lemma_open_bounded, lemma_release, lemma_take, AcquiredView, ConnectionView,
    PolledView, PoolError, PoolState, Released,
};

verus! {

/// One call on a pool, with its arguments.
pub enum Call {
    Acquire { now: u64 },
    Poll { since: u64, now: u64 },
    Cancel { since: u64 },
    Release { conn: ConnectionView, now: u64 },
    Reap { now: u64 },
    Shutdown,
}

impl PoolState {
    /// The pool after one call.
    pub open spec fn after(self, call: Call) -> PoolState {
        match call {
            Call::Acquire { now } => self.acquire(now).0,
            Call::Poll { since, now } => self.poll(since, now).0,
            Call::Cancel { since } => self.cancel(since),
            Call::Release { conn, now } => self.release(conn, now).0,
            Call::Reap { now } => self.reap(now),
            Call::Shutdown => self.shutdown(),
        }
    }

    /// The pool after a run of calls, first to last.
    pub open spec fn after_all(self, calls: Seq<Call>) -> PoolState
        decreases calls.len(),
    {
        if calls.len() == 0 {
            self
        } else {
            self.after_all(calls.drop_last()).after(calls.last())
        }
    }
}

impl PoolState {
    /// Two states are of one pool: they agree on its bounds and timeouts.
    pub open spec fn same_settings(self, other: PoolState) -> bool {
        &&& self.min == other.min
        &&& self.max == other.max
        &&& self.connect_timeout == other.connect_timeout
        &&& self.idle_timeout == other.idle_timeout
    }
}

/// A pool stays a pool under every call, and keeps its settings.
pub proof fn lemma_call_keeps_inv(s: PoolState, call: Call)
    requires
        s.inv(),
    ensures
        s.after(call).inv(),
        s.after(call).same_settings(s),
{
    match call {
        Call::Acquire { now } => {
            if s.available() {
                lemma_take(s);
            }
        },
        Call::Poll { since, now } => {
            if s.available() {
                lemma_take(s);
            }
        },
        Call::Cancel { since } => {
            s.pending.index_of_first_ensures(since);
        },
        Call::Release { conn, now } => {
            lemma_release(s, conn, now);
        },
        Call::Reap { now } => {},
        Call::Shutdown => {},
    }
}

/// A pool stays a pool under every run of calls, and keeps its settings.
pub proof fn lemma_calls_keep_inv(s: PoolState, calls: Seq<Call>)
    requires
        s.inv(),
    ensures
        s.after_all(calls).inv(),
        s.after_all(calls).same_settings(s),
    decreases calls.len(),
{
    if calls.len() > 0 {
        lemma_calls_keep_inv(s, calls.drop_last());
        lemma_call_keeps_inv(s.after_all(calls.drop_last()), calls.last());
    }
}

/// The pool of a configuration whose bounds are in order never holds more
/// open connections than `pool_max`: idle and handed out together stay at or
/// below it after every run of calls, made with whatever arguments.
pub proof fn law_open_connections_bounded(config: ServiceConfigView, start: u64, calls: Seq<Call>)
    requires
        config.pool_min <= config.pool_max,
    ensures
        PoolState::of_config(config, start).inv(),
        PoolState::of_config(config, start).after_all(calls).inv(),
        PoolState::of_config(config, start).after_all(calls).idle_count() + PoolState::of_config(
            config,
            start,
        ).after_all(calls).active_count() <= config.pool_max,
{
    let s = PoolState::of_config(config, start);
    lemma_calls_keep_inv(s, calls);
    lemma_open_bounded(s.after_all(calls));
}

/// A request made while as many connections are handed out as the pool
/// allows is queued: it gets a ticket, and the pool holds what it held.
pub proof fn law_exhausted_pool_queues(s: PoolState, now: u64)
    requires
        s.inv(),
        !s.closed,
        s.active_count() == s.max,
    ensures
        s.acquire(now).1 == Ok::<AcquiredView, PoolError>(AcquiredView::Queued(now)),
        s.acquire(now).0.slots == s.slots,
        s.acquire(now).0.pending == s.pending.push(now),
{
    lemma_open_bounded(s);
}

/// A waiting request is served when it asks again after a connection was
/// released, as long as it asks before its timeout has passed.
pub proof fn law_waiter_served_after_release(
    s: PoolState,
    since: u64,
    conn: ConnectionView,
    released_at: u64,
    now: u64,
)
    requires
        s.inv(),
        !s.closed,
        s.pending.contains(since),
        s.holds(conn.id),
        elapsed(since, now) < s.connect_timeout,
    ensures
        s.release(conn, released_at).0.poll(since, now).1 == Ok::<PolledView, PoolError>(
            PolledView::Ready(s.release(conn, released_at).0.handed_out()),
        ),
{
    lemma_release(s, conn, released_at);
    lemma_open_bounded(s);
}

/// A waiting request fails with `AcquireTimeout` when it asks again after
/// its timeout has passed; it then waits no longer, and the connections are
/// as they were.
pub proof fn law_waiter_times_out(s: PoolState, since: u64, now: u64)
    requires
        s.inv(),
        !s.closed,
        s.pending.contains(since),
        elapsed(since, now) >= s.connect_timeout,
    ensures
        s.poll(since, now).1 == Err::<PolledView, PoolError>(PoolError::AcquireTimeout),
        s.poll(since, now).0.slots == s.slots,
        s.poll(since, now).0.pending_count() + 1 == s.pending_count(),
{
    s.pending.index_of_first_ensures(since);
}

/// Releasing the connection that `acquire` has just handed out, unbroken,
/// leaves the counters of the pool as they were before the `acquire`,
/// if a connection was idle then.
pub proof fn law_release_undoes_acquire(s: PoolState, now: u64, later: u64)
    requires
        s.inv(),
        !s.closed,
        s.idle_count() > 0,
    ensures
        s.acquire(now).1 == Ok::<AcquiredView, PoolError>(AcquiredView::Ready(s.handed_out())),
        s.acquire(now).0.release(s.handed_out(), later).1 == Released::Idle,
        s.acquire(now).0.release(s.handed_out(), later).0.idle_count() == s.idle_count(),
        s.acquire(now).0.release(s.handed_out(), later).0.active_count() == s.active_count(),
        s.acquire(now).0.release(s.handed_out(), later).0.pending_count() == s.pending_count(),
{
    lemma_take(s);
    lemma_release(s.take(), s.handed_out(), later);
}

/// Where no connection was idle and the pool grew for the `acquire`, the
/// release leaves one idle connection more than before, and as many handed
/// out and waiting.
pub proof fn law_release_after_growth(s: PoolState, now: u64, later: u64)
    requires
        s.inv(),
        !s.closed,
        s.idle_count() == 0,
        s.active_count() < s.max,
    ensures
        s.acquire(now).1 == Ok::<AcquiredView, PoolError>(AcquiredView::Ready(s.handed_out())),
        s.acquire(now).0.release(s.handed_out(), later).1 == Released::Idle,
        s.acquire(now).0.release(s.handed_out(), later).0.idle_count() == 1,
        s.acquire(now).0.release(s.handed_out(), later).0.active_count() == s.active_count(),
        s.acquire(now).0.release(s.handed_out(), later).0.pending_count() == s.pending_count(),
{
    lemma_take(s);
    lemma_release(s.take(), s.handed_out(), later);
}

/// No connection is in two hands at once: the connection that a request is
/// served with was not handed out before, and is afterwards.
pub proof fn law_handed_out_once(s: PoolState, now: u64)
    requires
        s.inv(),
        s.available(),
    ensures
        s.acquire(now).1 == Ok::<AcquiredView, PoolError>(AcquiredView::Ready(s.handed_out())),
        !s.holds(s.handed_out().id),
        s.acquire(now).0.holds(s.handed_out().id),
{
    lemma_take(s);
}

} // verus!
