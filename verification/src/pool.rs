//! The connection pool: a bounded set of connections, handed out to one
//! holder at a time.
//!
//! The pool decides; the caller acts. It opens, resets and closes the
//! connections that the pool names, and reports the clock with every call.

use vstd::prelude::*;
use crate::config::ServiceConfig;
use crate::pool_state::{
    count, elapsed, expired_before, first, lemma_count_push, lemma_count_update, lemma_first_is,
    lemma_open_bounded, lemma_release, lemma_take, AcquiredView, ConnectionView, PolledView,
    PoolError, PoolState, Released, Slot, SlotKind,
};

verus! {

/// What came of the attempt to reach the backing store at start.
#[derive(Debug, Clone, Copy, PartialEq, Eq, Structural)]
pub enum Probe {
    /// The store answered after `elapsed` ticks.
    Reachable { elapsed: u64 },
    /// The store did not answer.
    Unreachable,
}

impl Probe {
    /// The store answered, and in time.
    pub open spec fn within(self, timeout: u64) -> bool {
        self matches Probe::Reachable { elapsed } && elapsed <= timeout
    }
}

/// A connection in the hands of one holder. It cannot be copied: whoever
/// holds it is the only one to use the connection, until it is released.
#[derive(Debug)]
pub struct Connection {
    id: usize,
    fresh: bool,
    broken: bool,
}

impl View for Connection {
    type V = ConnectionView;

    closed spec fn view(&self) -> ConnectionView {
        ConnectionView { id: self.id, fresh: self.fresh, broken: self.broken }
    }
}

impl Connection {
    /// The slot of the connection, by which the caller finds the socket.
    pub fn id(&self) -> (id: usize)
        ensures
            id == self@.id,
    {
        self.id
    }

    /// The pool grew for this handle: the caller has to open the connection
    /// before use, and to release the handle as broken where that fails.
    pub fn is_fresh(&self) -> (fresh: bool)
        ensures
            fresh == self@.fresh,
    {
        self.fresh
    }

    pub fn is_broken(&self) -> (broken: bool)
        ensures
            broken == self@.broken,
    {
        self.broken
    }

    /// Marks the connection as unusable: the pool will close it on release.
    pub fn mark_broken(&mut self)
        ensures
            final(self)@ == (ConnectionView { broken: true, ..old(self)@ }),
    {
        self.broken = true;
    }
}

/// The claim of a request that waits for a connection. Its view is the tick
/// at which the request arrived.
#[derive(Debug)]
pub struct Ticket {
    since: u64,
}

impl View for Ticket {
    type V = u64;

    closed spec fn view(&self) -> u64 {
        self.since
    }
}

impl Ticket {
    /// The tick at which the request arrived.
    pub fn since(&self) -> (since: u64)
        ensures
            since == self@,
    {
        self.since
    }
}

/// The answer to a request for a connection.
#[derive(Debug)]
pub enum Acquired {
    /// Here it is.
    Ready(Connection),
    /// None is available: the request waits, and asks again with the ticket.
    Queued(Ticket),
}

impl View for Acquired {
    type V = AcquiredView;

    open spec fn view(&self) -> AcquiredView {
        match self {
            Acquired::Ready(conn) => AcquiredView::Ready(conn@),
            Acquired::Queued(ticket) => AcquiredView::Queued(ticket@),
        }
    }
}

/// The answer to a waiting request that asks again.
#[derive(Debug)]
pub enum Polled {
    /// Here it is.
    Ready(Connection),
    /// Still none: the ticket comes back.
    Waiting(Ticket),
}

impl View for Polled {
    type V = PolledView;

    open spec fn view(&self) -> PolledView {
        match self {
            Polled::Ready(conn) => PolledView::Ready(conn@),
            Polled::Waiting(ticket) => PolledView::Waiting(ticket@),
        }
    }
}

/// What a shutdown left behind.
#[derive(Debug)]
pub struct Drained {
    /// The connections that were open, for the caller to close, in rising
    /// order.
    pub connections: Vec<usize>,
    /// The number of requests that were waiting: each of them fails with
    /// `PoolClosed` when it asks again.
    pub waiters: usize,
}

/// A bounded pool of connections. Its view is its whole state.
#[derive(Debug)]
pub struct ConnectionPool {
    min: usize,
    max: usize,
    connect_timeout: u64,
    idle_timeout: Option<u64>,
    slots: Vec<Slot>,
    pending: Vec<u64>,
    closed: bool,
    idle: usize,
    active: usize,
}

impl View for ConnectionPool {
    type V = PoolState;

    closed spec fn view(&self) -> PoolState {
        PoolState {
            min: self.min,
            max: self.max,
            connect_timeout: self.connect_timeout,
            idle_timeout: self.idle_timeout,
            slots: self.slots@,
            pending: self.pending@,
            closed: self.closed,
        }
    }
}

fn kind_of(slot: &Slot) -> (kind: SlotKind)
    ensures
        kind == slot.kind(),
{
    match slot {
        Slot::Vacant => SlotKind::Vacant,
        Slot::Idle { .. } => SlotKind::Idle,
        Slot::Active => SlotKind::Active,
    }
}

/// Searches the slots from the front for one of the given kind.
fn find(slots: &Vec<Slot>, kind: SlotKind) -> (i: usize)
    ensures
        i == first(slots@, kind),
{
    let mut i: usize = 0;
    while i < slots.len()
        invariant
            i <= slots.len(),
            forall|j: int| 0 <= j < i ==> (#[trigger] slots@[j]).kind() != kind,
        decreases slots.len() - i,
    {
        if kind_of(&slots[i]) == kind {
            proof {
                lemma_first_is(slots@, kind, i as int);
            }
            return i;
        }
        i += 1;
    }
    proof {
        lemma_first_is(slots@, kind, i as int);
    }
    i
}

/// Searches the waiting requests from the front for one that arrived at
/// `since`.
fn position(pending: &Vec<u64>, since: u64) -> (at: Option<usize>)
    ensures
        at is Some <==> pending@.contains(since),
        at matches Some(i) ==> i < pending@.len() && pending@.index_of_first(since) == Some(
            i as int,
        ),
{
    let mut i: usize = 0;
    while i < pending.len()
        invariant
            i <= pending.len(),
            forall|j: int| 0 <= j < i ==> pending@[j] != since,
        decreases pending.len() - i,
    {
        if pending[i] == since {
            proof {
                pending@.index_of_first_ensures(since);
            }
            return Some(i);
        }
        i += 1;
    }
    None
}

fn ticks_since(since: u64, now: u64) -> (ticks: u64)
    ensures
        ticks == elapsed(since, now),
{
    if now >= since {
        now - since
    } else {
        0
    }
}

impl ConnectionPool {
    /// The pool is a state that a pool can be in, and its counters are right.
    pub closed spec fn wf(&self) -> bool {
        &&& self@.inv()
        &&& self.idle == self@.idle_count()
        &&& self.active == self@.active_count()
    }

    /// A pool that is in order is in a state that a pool can be in, and
    /// holds no more open connections than it may.
    pub proof fn lemma_wf(&self)
        requires
            self.wf(),
        ensures
            self@.inv(),
            self@.idle_count() + self@.active_count() <= self@.max,
    {
        lemma_open_bounded(self@);
    }

    /// Sets the pool up for a configuration, given what came of reaching the
    /// backing store. The pool starts with `pool_min` idle connections, which
    /// the caller opens.
    ///
    /// Fails with `PoolInitError` exactly if the store did not answer within
    /// the connect timeout.
    pub fn init(config: &ServiceConfig, probe: Probe, now: u64) -> (res: Result<
        ConnectionPool,
        PoolError,
    >)
        requires
            config.wf(),
        ensures
            res is Ok <==> probe.within(config@.connect_timeout),
            res matches Ok(pool) ==> pool.wf() && pool@ == PoolState::of_config(config@, now),
            res matches Err(e) ==> e == PoolError::PoolInitError,
    {
        match probe {
            Probe::Reachable { elapsed } => {
                if elapsed > config.connect_timeout() {
                    return Err(PoolError::PoolInitError);
                }
            },
            Probe::Unreachable => {
                return Err(PoolError::PoolInitError);
            },
        }
        let min: usize = config.pool_min() as usize;
        let mut slots: Vec<Slot> = Vec::new();
        let mut i: usize = 0;
        while i < min
            invariant
                i <= min,
                slots@ =~= Seq::new(i as nat, |k: int| Slot::Idle { since: now }),
                count(slots@, SlotKind::Idle) == i,
                count(slots@, SlotKind::Active) == 0,
            decreases min - i,
        {
            proof {
                lemma_count_push(slots@, Slot::Idle { since: now }, SlotKind::Idle);
                lemma_count_push(slots@, Slot::Idle { since: now }, SlotKind::Active);
            }
            slots.push(Slot::Idle { since: now });
            i += 1;
        }
        Ok(
            ConnectionPool {
                min,
                max: config.pool_max(),
                connect_timeout: config.connect_timeout(),
                idle_timeout: config.idle_timeout(),
                slots,
                pending: Vec::new(),
                closed: false,
                idle: min,
                active: 0,
            },
        )
    }

    /// Hands out the next connection of a pool that has one available.
    fn take(&mut self) -> (conn: Connection)
        requires
            old(self).wf(),
            old(self)@.available(),
        ensures
            final(self).wf(),
            final(self)@ == old(self)@.take(),
            conn@ == old(self)@.handed_out(),
    {
        proof {
            lemma_take(self@);
            lemma_open_bounded(self@.take());
        }
        let fresh = self.idle == 0;
        let i: usize = if fresh {
            find(&self.slots, SlotKind::Vacant)
        } else {
            find(&self.slots, SlotKind::Idle)
        };
        if i < self.slots.len() {
            self.slots.set(i, Slot::Active);
        } else {
            self.slots.push(Slot::Active);
        }
        if !fresh {
            self.idle = self.idle - 1;
        }
        self.active = self.active + 1;
        Connection { id: i, fresh, broken: false }
    }

    /// Asks for a connection at `now`.
    ///
    /// Fails with `PoolClosed` exactly if the pool is shut down. Otherwise
    /// the answer is a connection where one is idle or the pool may grow,
    /// and a ticket to wait with where neither is so. A connection that
    /// comes out was not handed out before the call and is so after it.
    pub fn acquire(&mut self, now: u64) -> (res: Result<Acquired, PoolError>)
        requires
            old(self).wf(),
        ensures
            final(self).wf(),
            final(self)@ == old(self)@.acquire(now).0,
            res matches Ok(got) ==> old(self)@.acquire(now).1 == Ok::<AcquiredView, PoolError>(
                got@,
            ),
            res matches Err(e) ==> old(self)@.acquire(now).1 == Err::<AcquiredView, PoolError>(e),
            res is Err <==> old(self)@.closed,
            res matches Ok(Acquired::Ready(conn)) ==> !old(self)@.holds(conn@.id)
                && final(self)@.holds(conn@.id) && !conn@.broken,
    {
        if self.closed {
            return Err(PoolError::PoolClosed);
        }
        proof {
            lemma_open_bounded(self@);
        }
        if self.idle > 0 || self.idle + self.active < self.max {
            proof {
                lemma_take(self@);
            }
            let conn = self.take();
            Ok(Acquired::Ready(conn))
        } else {
            self.pending.push(now);
            Ok(Acquired::Queued(Ticket { since: now }))
        }
    }

    /// A waiting request asks again at `now`.
    ///
    /// Fails with `PoolClosed` if the pool is shut down; else with
    /// `UnknownTicket` if no request waits since the ticket's tick; else with
    /// `AcquireTimeout` if the connect timeout has passed since then, and the
    /// request waits no longer. Otherwise the answer is a connection where
    /// one is available, and the ticket back where none is.
    pub fn poll(&mut self, ticket: Ticket, now: u64) -> (res: Result<Polled, PoolError>)
        requires
            old(self).wf(),
        ensures
            final(self).wf(),
            final(self)@ == old(self)@.poll(ticket@, now).0,
            res matches Ok(got) ==> old(self)@.poll(ticket@, now).1 == Ok::<PolledView, PoolError>(
                got@,
            ),
            res matches Err(e) ==> old(self)@.poll(ticket@, now).1 == Err::<PolledView, PoolError>(
                e,
            ),
            res matches Ok(Polled::Ready(conn)) ==> !old(self)@.holds(conn@.id)
                && final(self)@.holds(conn@.id) && !conn@.broken,
    {
        if self.closed {
            return Err(PoolError::PoolClosed);
        }
        let at = position(&self.pending, ticket.since);
        if at.is_none() {
            return Err(PoolError::UnknownTicket);
        }
        let i: usize = at.unwrap();
        if ticks_since(ticket.since, now) >= self.connect_timeout {
            self.pending.remove(i);
            return Err(PoolError::AcquireTimeout);
        }
        proof {
            lemma_open_bounded(self@);
        }
        if self.idle > 0 || self.idle + self.active < self.max {
            proof {
                lemma_take(self@);
            }
            self.pending.remove(i);
            let conn = self.take();
            Ok(Polled::Ready(conn))
        } else {
            Ok(Polled::Waiting(ticket))
        }
    }

    /// Gives up a waiting request: it waits no longer, and holds nothing of
    /// the pool. Returns whether a request was waiting since the ticket's
    /// tick.
    pub fn cancel(&mut self, ticket: Ticket) -> (was_waiting: bool)
        requires
            old(self).wf(),
        ensures
            final(self).wf(),
            final(self)@ == old(self)@.cancel(ticket@),
            was_waiting == old(self)@.pending.contains(ticket@),
    {
        let at = position(&self.pending, ticket.since);
        proof {
            self.pending@.index_of_first_ensures(ticket.since);
        }
        if at.is_none() {
            return false;
        }
        let i: usize = at.unwrap();
        self.pending.remove(i);
        true
    }

    /// Takes a connection back at `now`.
    ///
    /// A handle that this pool has not handed out, or no longer holds, is
    /// rejected and nothing changes. A connection marked broken is discarded:
    /// its slot is vacant, and no other is opened in its place until a
    /// request needs one. Any other connection is idle from `now` on.
    pub fn release(&mut self, conn: Connection, now: u64) -> (out: Released)
        requires
            old(self).wf(),
        ensures
            final(self).wf(),
            final(self)@ == old(self)@.release(conn@, now).0,
            out == old(self)@.release(conn@, now).1,
            !final(self)@.holds(conn@.id),
    {
        proof {
            lemma_release(self@, conn@, now);
            lemma_open_bounded(self@.release(conn@, now).0);
        }
        let id: usize = conn.id;
        if id >= self.slots.len() {
            return Released::Rejected;
        }
        if kind_of(&self.slots[id]) != SlotKind::Active {
            return Released::Rejected;
        }
        if conn.broken {
            self.slots.set(id, Slot::Vacant);
            self.active = self.active - 1;
            Released::Discarded
        } else {
            self.slots.set(id, Slot::Idle { since: now });
            self.active = self.active - 1;
            self.idle = self.idle + 1;
            Released::Idle
        }
    }

    /// Closes the connections that have been idle for longer than the idle
    /// timeout, lowest slot first. While requests wait it leaves at least
    /// `pool_min` connections idle. Returns the connections closed, for the
    /// caller to close, in rising order.
    pub fn reap(&mut self, now: u64) -> (closed: Vec<usize>)
        requires
            old(self).wf(),
        ensures
            final(self).wf(),
            final(self)@ == old(self)@.reap(now),
            forall|k: int|
                0 <= k < closed@.len() ==> old(self)@.reaps((#[trigger] closed@[k]) as int, now),
            forall|id: int| #[trigger]
                old(self)@.reaps(id, now) ==> closed@.contains(id as usize),
            forall|j: int, k: int| 0 <= j < k < closed@.len() ==> closed@[j] < closed@[k],
    {
        let mut closed: Vec<usize> = Vec::new();
        let floor: usize = if self.pending.len() > 0 {
            self.min
        } else {
            0
        };
        let budget: usize = if self.idle > floor {
            self.idle - floor
        } else {
            0
        };
        let mut left: usize = budget;
        let mut i: usize = 0;
        let ghost before = self@;
        while i < self.slots.len()
            invariant
                i <= self.slots.len(),
                self.slots@.len() == before.slots.len(),
                self.min == before.min,
                self.max == before.max,
                self.connect_timeout == before.connect_timeout,
                self.idle_timeout == before.idle_timeout,
                self.pending@ == before.pending,
                self.closed == before.closed,
                before.inv(),
                budget == before.reap_budget(),
                left <= budget,
                expired_before(before.slots, i as int, before.idle_timeout, now) < budget ==> left
                    == budget - expired_before(before.slots, i as int, before.idle_timeout, now),
                expired_before(before.slots, i as int, before.idle_timeout, now) >= budget ==> left
                    == 0,
                forall|j: int|
                    0 <= j < i ==> #[trigger] self.slots@[j] == (if before.reaps(j, now) {
                        Slot::Vacant
                    } else {
                        before.slots[j]
                    }),
                forall|j: int| i <= j < self.slots@.len() ==> #[trigger] self.slots@[j] == before.slots[j],
                self.idle == count(self.slots@, SlotKind::Idle),
                self.active == count(self.slots@, SlotKind::Active),
                forall|k: int|
                    0 <= k < closed@.len() ==> (#[trigger] closed@[k]) < i && before.reaps(
                        closed@[k] as int,
                        now,
                    ),
                forall|id: int|
                    0 <= id < i && #[trigger] before.reaps(id, now) ==> closed@.contains(
                        id as usize,
                    ),
                forall|j: int, k: int| 0 <= j < k < closed@.len() ==> closed@[j] < closed@[k],
            decreases self.slots.len() - i,
        {
            let too_long = match self.slots[i] {
                Slot::Idle { since } => match self.idle_timeout {
                    Some(limit) => ticks_since(since, now) > limit,
                    None => false,
                },
                _ => false,
            };
            let ghost listed = closed@;
            if too_long && left > 0 {
                proof {
                    lemma_count_update(self.slots@, i as int, Slot::Vacant, SlotKind::Idle);
                    lemma_count_update(self.slots@, i as int, Slot::Vacant, SlotKind::Active);
                }
                self.slots.set(i, Slot::Vacant);
                self.idle = self.idle - 1;
                left = left - 1;
                closed.push(i);
            }
            assert forall|id: int| 0 <= id < i + 1 && #[trigger] before.reaps(id, now) implies closed@.contains(
                id as usize,
            ) by {
                if id < i {
                    let k = choose|k: int| 0 <= k < listed.len() && listed[k] == id as usize;
                    assert(closed@[k] == id as usize);
                } else {
                    assert(closed@[listed.len() as int] == id as usize);
                }
            }
            i += 1;
        }
        assert(self.slots@ =~= before.reap(now).slots);
        closed
    }

    /// Shuts the pool down: every open connection is listed for the caller
    /// to close, every waiting request is dropped. From now on `acquire` and
    /// `poll` fail with `PoolClosed`.
    pub fn shutdown(&mut self) -> (report: Drained)
        requires
            old(self).wf(),
        ensures
            final(self).wf(),
            final(self)@ == old(self)@.shutdown(),
            report.waiters == old(self)@.pending.len(),
            report.connections@.len() == old(self)@.idle_count() + old(self)@.active_count(),
            forall|k: int|
                0 <= k < report.connections@.len() ==> (#[trigger] report.connections@[k])
                    < old(self)@.slots.len() && old(self)@.slots[report.connections@[k] as int]
                    !is Vacant,
            forall|id: int|
                0 <= id < old(self)@.slots.len() && (#[trigger] old(self)@.slots[id]) !is Vacant
                    ==> report.connections@.contains(id as usize),
            forall|j: int, k: int|
                0 <= j < k < report.connections@.len() ==> report.connections@[j]
                    < report.connections@[k],
    {
        let mut open: Vec<usize> = Vec::new();
        let mut i: usize = 0;
        while i < self.slots.len()
            invariant
                i <= self.slots.len(),
                open@.len() == count(self.slots@.take(i as int), SlotKind::Idle) + count(
                    self.slots@.take(i as int),
                    SlotKind::Active,
                ),
                forall|k: int|
                    0 <= k < open@.len() ==> (#[trigger] open@[k]) < i && self.slots@[open@[k] as int]
                        !is Vacant,
                forall|id: int|
                    0 <= id < i && (#[trigger] self.slots@[id]) !is Vacant ==> open@.contains(
                        id as usize,
                    ),
                forall|j: int, k: int| 0 <= j < k < open@.len() ==> open@[j] < open@[k],
            decreases self.slots.len() - i,
        {
            let ghost listed = open@;
            assert(self.slots@.take(i + 1).drop_last() =~= self.slots@.take(i as int));
            if kind_of(&self.slots[i]) != SlotKind::Vacant {
                open.push(i);
            }
            assert forall|id: int| 0 <= id < i + 1 && (#[trigger] self.slots@[id]) !is Vacant implies open@.contains(
                id as usize,
            ) by {
                if id < i {
                    let k = choose|k: int| 0 <= k < listed.len() && listed[k] == id as usize;
                    assert(open@[k] == id as usize);
                } else {
                    assert(open@[listed.len() as int] == id as usize);
                }
            }
            i += 1;
        }
        assert(self.slots@.take(i as int) =~= self.slots@);
        let waiters: usize = self.pending.len();
        self.slots = Vec::new();
        self.pending = Vec::new();
        self.closed = true;
        self.idle = 0;
        self.active = 0;
        Drained { connections: open, waiters }
    }

    /// The number of open connections that nobody uses.
    pub fn idle_count(&self) -> (n: usize)
        requires
            self.wf(),
        ensures
            n == self@.idle_count(),
    {
        self.idle
    }

    /// The number of connections that are handed out.
    pub fn active_count(&self) -> (n: usize)
        requires
            self.wf(),
        ensures
            n == self@.active_count(),
    {
        self.active
    }

    /// The number of requests that wait for a connection.
    pub fn pending_count(&self) -> (n: usize)
        ensures
            n == self@.pending_count(),
    {
        self.pending.len()
    }

    /// The largest number of open connections.
    pub fn capacity(&self) -> (n: usize)
        ensures
            n == self@.max,
    {
        self.max
    }

    pub fn is_closed(&self) -> (closed: bool)
        ensures
            closed == self@.closed,
    {
        self.closed
    }
}

} // verus!
