//! The state of a connection pool as a mathematical value, and what each
//! operation of the pool does to it.
//!
//! Time is a count of ticks on the caller's clock, in the unit of the
//! configured timeouts.

use vstd::prelude::*;
use crate::config::ServiceConfigView;

verus! {

/// Why the pool handed out no connection.
#[derive(Debug, Clone, Copy, PartialEq, Eq, Structural)]
pub enum PoolError {
    /// The backing store did not answer within the connect timeout at start.
    PoolInitError,
    /// No connection became available within the connect timeout.
    AcquireTimeout,
    /// The pool is shut down.
    PoolClosed,
    /// The ticket does not belong to a request that is waiting here.
    UnknownTicket,
}

/// One place for a connection. A connection is known by the index of its slot.
#[derive(Debug, Clone, Copy, PartialEq, Eq, Structural)]
pub enum Slot {
    /// No connection is open in this slot.
    Vacant,
    /// The connection is open and unused since the given tick.
    Idle { since: u64 },
    /// The connection is handed out.
    Active,
}

#[derive(Debug, Clone, Copy, PartialEq, Eq, Structural)]
pub enum SlotKind {
    Vacant,
    Idle,
    Active,
}

/// What became of a connection that was given back.
#[derive(Debug, Clone, Copy, PartialEq, Eq, Structural)]
pub enum Released {
    /// It is idle again and will be reused.
    Idle,
    /// It was marked broken and is closed; its slot is vacant.
    Discarded,
    /// It is not handed out by this pool: nothing changed.
    Rejected,
}

/// A handle on a connection, as the pool sees it.
pub struct ConnectionView {
    /// The slot of the connection.
    pub id: usize,
    /// The pool grew for this handle: the connection is yet to be opened.
    pub fresh: bool,
    /// The holder found the connection unusable.
    pub broken: bool,
}

pub enum AcquiredView {
    Ready(ConnectionView),
    Queued(u64),
}

pub enum PolledView {
    Ready(ConnectionView),
    Waiting(u64),
}

/// The whole state of a pool.
pub struct PoolState {
    /// The number of idle connections that the pool opens at start and that
    /// the reaper leaves alone while requests wait.
    pub min: usize,
    /// The largest number of open connections.
    pub max: usize,
    /// How long a request waits for a connection.
    pub connect_timeout: u64,
    /// How long a connection may stay idle; `None` for ever.
    pub idle_timeout: Option<u64>,
    /// The slots, by connection id.
    pub slots: Seq<Slot>,
    /// The ticks at which the waiting requests arrived, oldest first.
    pub pending: Seq<u64>,
    /// The pool is shut down.
    pub closed: bool,
}

/// The ticks that have passed at `now` since `since`; none if the clock
/// stepped back.
pub open spec fn elapsed(since: u64, now: u64) -> nat {
    if now >= since {
        (now - since) as nat
    } else {
        0
    }
}

impl Slot {
    pub open spec fn kind(self) -> SlotKind {
        match self {
            Slot::Vacant => SlotKind::Vacant,
            Slot::Idle { .. } => SlotKind::Idle,
            Slot::Active => SlotKind::Active,
        }
    }

    /// The slot holds a connection that has been idle for longer than
    /// `timeout` allows.
    pub open spec fn expired(self, timeout: Option<u64>, now: u64) -> bool {
        &&& self matches Slot::Idle { since }
        &&& timeout matches Some(limit)
        &&& elapsed(since, now) > limit
    }
}

/// The number of slots of one kind.
pub open spec fn count(slots: Seq<Slot>, kind: SlotKind) -> nat
    decreases slots.len(),
{
    if slots.len() == 0 {
        0
    } else {
        count(slots.drop_last(), kind) + if slots.last().kind() == kind {
            1nat
        } else {
            0nat
        }
    }
}

/// The index of the first slot of one kind, or the number of slots if there
/// is none.
pub open spec fn first(slots: Seq<Slot>, kind: SlotKind) -> int
    decreases slots.len(),
{
    if slots.len() == 0 {
        0
    } else if slots[0].kind() == kind {
        0
    } else {
        1 + first(slots.drop_first(), kind)
    }
}

/// The number of connections among the first `upto` slots that have been idle
/// for too long.
pub open spec fn expired_before(slots: Seq<Slot>, upto: int, timeout: Option<u64>, now: u64) -> nat
    decreases upto,
{
    if upto <= 0 {
        0
    } else {
        expired_before(slots, upto - 1, timeout, now) + if slots[upto - 1].expired(timeout, now) {
            1nat
        } else {
            0nat
        }
    }
}

pub proof fn lemma_count_push(slots: Seq<Slot>, slot: Slot, kind: SlotKind)
    ensures
        count(slots.push(slot), kind) == count(slots, kind) + if slot.kind() == kind {
            1nat
        } else {
            0nat
        },
{
    assert(slots.push(slot).drop_last() =~= slots);
}

pub proof fn lemma_count_update(slots: Seq<Slot>, i: int, slot: Slot, kind: SlotKind)
    requires
        0 <= i < slots.len(),
    ensures
        count(slots.update(i, slot), kind) + (if slots[i].kind() == kind {
            1nat
        } else {
            0nat
        }) == count(slots, kind) + if slot.kind() == kind {
            1nat
        } else {
            0nat
        },
    decreases slots.len(),
{
    if i == slots.len() - 1 {
        assert(slots.update(i, slot).drop_last() =~= slots.drop_last());
    } else {
        assert(slots.update(i, slot).drop_last() =~= slots.drop_last().update(i, slot));
        lemma_count_update(slots.drop_last(), i, slot, kind);
    }
}

/// Every slot is of exactly one kind.
pub proof fn lemma_count_total(slots: Seq<Slot>)
    ensures
        count(slots, SlotKind::Vacant) + count(slots, SlotKind::Idle) + count(
            slots,
            SlotKind::Active,
        ) == slots.len(),
    decreases slots.len(),
{
    if slots.len() > 0 {
        lemma_count_total(slots.drop_last());
    }
}

/// There are slots of a kind exactly if some slot is of that kind.
pub proof fn lemma_count_zero(slots: Seq<Slot>, kind: SlotKind)
    ensures
        count(slots, kind) == 0 <==> forall|j: int|
            0 <= j < slots.len() ==> (#[trigger] slots[j]).kind() != kind,
    decreases slots.len(),
{
    if slots.len() > 0 {
        lemma_count_zero(slots.drop_last(), kind);
        if count(slots, kind) == 0 {
            assert forall|j: int| 0 <= j < slots.len() implies (#[trigger] slots[j]).kind()
                != kind by {
                if j < slots.len() - 1 {
                    assert(slots.drop_last()[j] == slots[j]);
                }
            }
        } else if slots.last().kind() != kind {
            let j = choose|j: int|
                0 <= j < slots.drop_last().len() && (#[trigger] slots.drop_last()[j]).kind()
                    == kind;
            assert(slots[j].kind() == kind);
        }
    }
}

/// `first` finds a slot of the kind if there is one, and no earlier slot is
/// of that kind.
pub proof fn lemma_first(slots: Seq<Slot>, kind: SlotKind)
    ensures
        0 <= first(slots, kind) <= slots.len(),
        first(slots, kind) < slots.len() ==> slots[first(slots, kind)].kind() == kind,
        forall|j: int| 0 <= j < first(slots, kind) ==> (#[trigger] slots[j]).kind() != kind,
        first(slots, kind) < slots.len() <==> count(slots, kind) > 0,
    decreases slots.len(),
{
    lemma_count_zero(slots, kind);
    if slots.len() > 0 && slots[0].kind() != kind {
        let rest = slots.drop_first();
        lemma_first(rest, kind);
        assert forall|j: int| 0 <= j < first(slots, kind) implies (#[trigger] slots[j]).kind()
            != kind by {
            if j > 0 {
                assert(rest[j - 1] == slots[j]);
            }
        }
        if first(rest, kind) < rest.len() {
            assert(slots[first(rest, kind) + 1] == rest[first(rest, kind)]);
        }
    }
}

/// The index at which a search from the front stops is `first`.
pub proof fn lemma_first_is(slots: Seq<Slot>, kind: SlotKind, i: int)
    requires
        0 <= i <= slots.len(),
        i < slots.len() ==> slots[i].kind() == kind,
        forall|j: int| 0 <= j < i ==> (#[trigger] slots[j]).kind() != kind,
    ensures
        first(slots, kind) == i,
{
    lemma_first(slots, kind);
    let f = first(slots, kind);
    if f < i {
        assert(slots[f].kind() != kind);
    }
}


impl PoolState {
    /// The number of open connections that nobody uses.
    pub open spec fn idle_count(self) -> nat {
        count(self.slots, SlotKind::Idle)
    }

    /// The number of connections that are handed out.
    pub open spec fn active_count(self) -> nat {
        count(self.slots, SlotKind::Active)
    }

    /// The number of requests that wait for a connection.
    pub open spec fn pending_count(self) -> nat {
        self.pending.len()
    }

    /// What holds of a pool at all times: its bounds are in order, it has no
    /// more slots than connections allowed, and once shut down it holds
    /// neither connections nor waiting requests.
    pub open spec fn inv(self) -> bool {
        &&& self.min <= self.max
        &&& self.slots.len() <= self.max
        &&& self.closed ==> self.slots.len() == 0 && self.pending.len() == 0
    }

    /// The pool at its start: `min` idle connections, opened at `now`.
    pub open spec fn initial(
        min: usize,
        max: usize,
        connect_timeout: u64,
        idle_timeout: Option<u64>,
        now: u64,
    ) -> PoolState {
        PoolState {
            min,
            max,
            connect_timeout,
            idle_timeout,
            slots: Seq::new(min as nat, |i: int| Slot::Idle { since: now }),
            pending: Seq::empty(),
            closed: false,
        }
    }

    /// The pool that is made of a configuration at `now`.
    pub open spec fn of_config(config: ServiceConfigView, now: u64) -> PoolState {
        PoolState::initial(
            config.pool_min as usize,
            config.pool_max,
            config.connect_timeout,
            config.idle_timeout,
            now,
        )
    }

    /// The connection `id` is handed out.
    pub open spec fn holds(self, id: usize) -> bool {
        id < self.slots.len() && self.slots[id as int] is Active
    }

    /// A connection can be handed out at once: one is idle, or the pool may
    /// still grow.
    pub open spec fn available(self) -> bool {
        !self.closed && (self.idle_count() > 0 || self.idle_count() + self.active_count()
            < self.max)
    }

    /// The slot of the connection that is handed out next: the first idle
    /// one; where none is idle, the first vacant slot; where none is vacant,
    /// a new slot behind the others.
    pub open spec fn next_slot(self) -> int {
        if self.idle_count() > 0 {
            first(self.slots, SlotKind::Idle)
        } else {
            first(self.slots, SlotKind::Vacant)
        }
    }

    /// The handle that is handed out next. A connection that was idle comes
    /// back reset: it is neither fresh nor broken.
    pub open spec fn handed_out(self) -> ConnectionView {
        ConnectionView {
            id: self.next_slot() as usize,
            fresh: self.idle_count() == 0,
            broken: false,
        }
    }

    /// The pool after it handed out its next connection.
    pub open spec fn take(self) -> PoolState {
        let i = self.next_slot();
        PoolState {
            slots: if i < self.slots.len() {
                self.slots.update(i, Slot::Active)
            } else {
                self.slots.push(Slot::Active)
            },
            ..self
        }
    }

    /// A request for a connection at `now`: refused once the pool is shut
    /// down, served at once where a connection is available, queued otherwise.
    pub open spec fn acquire(self, now: u64) -> (PoolState, Result<AcquiredView, PoolError>) {
        if self.closed {
            (self, Err(PoolError::PoolClosed))
        } else if self.available() {
            (self.take(), Ok(AcquiredView::Ready(self.handed_out())))
        } else {
            (PoolState { pending: self.pending.push(now), ..self }, Ok(AcquiredView::Queued(now)))
        }
    }

    /// The request that has waited since `since` asks again at `now`. It
    /// fails once the connect timeout has passed, is served where a
    /// connection is available, and goes on waiting otherwise.
    pub open spec fn poll(self, since: u64, now: u64) -> (PoolState, Result<PolledView, PoolError>) {
        if self.closed {
            (self, Err(PoolError::PoolClosed))
        } else if !self.pending.contains(since) {
            (self, Err(PoolError::UnknownTicket))
        } else if elapsed(since, now) >= self.connect_timeout {
            (
                PoolState { pending: self.pending.remove_value(since), ..self },
                Err(PoolError::AcquireTimeout),
            )
        } else if self.available() {
            (
                PoolState { pending: self.pending.remove_value(since), ..self.take() },
                Ok(PolledView::Ready(self.handed_out())),
            )
        } else {
            (self, Ok(PolledView::Waiting(since)))
        }
    }

    /// The request that has waited since `since` is given up.
    pub open spec fn cancel(self, since: u64) -> PoolState {
        PoolState { pending: self.pending.remove_value(since), ..self }
    }

    /// A connection comes back at `now`. One that this pool has not handed
    /// out is rejected; a broken one is closed and leaves its slot vacant; any
    /// other is idle from `now` on.
    pub open spec fn release(self, conn: ConnectionView, now: u64) -> (PoolState, Released) {
        if !self.holds(conn.id) {
            (self, Released::Rejected)
        } else if conn.broken {
            (
                PoolState { slots: self.slots.update(conn.id as int, Slot::Vacant), ..self },
                Released::Discarded,
            )
        } else {
            (
                PoolState {
                    slots: self.slots.update(conn.id as int, Slot::Idle { since: now }),
                    ..self
                },
                Released::Idle,
            )
        }
    }

    /// The number of idle connections that the reaper may close: all of them
    /// while no request waits, those above `min` otherwise.
    pub open spec fn reap_budget(self) -> nat {
        let floor = if self.pending.len() > 0 {
            self.min as nat
        } else {
            0
        };
        if self.idle_count() > floor {
            (self.idle_count() - floor) as nat
        } else {
            0
        }
    }

    /// The reaper closes connection `id` at `now`: it has been idle for too
    /// long, and the budget is not used up by such connections before it.
    pub open spec fn reaps(self, id: int, now: u64) -> bool {
        &&& 0 <= id < self.slots.len()
        &&& self.slots[id].expired(self.idle_timeout, now)
        &&& expired_before(self.slots, id, self.idle_timeout, now) < self.reap_budget()
    }

    /// The pool after the reaper has run at `now`.
    pub open spec fn reap(self, now: u64) -> PoolState {
        PoolState {
            slots: Seq::new(
                self.slots.len(),
                |i: int|
                    if self.reaps(i, now) {
                        Slot::Vacant
                    } else {
                        self.slots[i]
                    },
            ),
            ..self
        }
    }

    /// The pool after shutdown: no connection is left open, no request is
    /// left waiting.
    pub open spec fn shutdown(self) -> PoolState {
        PoolState { slots: Seq::empty(), pending: Seq::empty(), closed: true, ..self }
    }
}

/// What handing out a connection does to a pool that has one available.
pub proof fn lemma_take(s: PoolState)
    requires
        s.inv(),
        s.available(),
    ensures
        s.take().inv(),
        0 <= s.next_slot() <= s.slots.len(),
        s.next_slot() < s.max,
        s.handed_out().id == s.next_slot(),
        !s.holds(s.handed_out().id),
        s.take().holds(s.handed_out().id),
        s.take().active_count() == s.active_count() + 1,
        s.idle_count() > 0 ==> s.take().idle_count() == s.idle_count() - 1,
        s.idle_count() == 0 ==> s.take().idle_count() == 0,
        s.take().pending == s.pending,
{
    lemma_first(s.slots, SlotKind::Idle);
    lemma_first(s.slots, SlotKind::Vacant);
    lemma_count_total(s.slots);
    let i = s.next_slot();
    if i < s.slots.len() {
        lemma_count_update(s.slots, i, Slot::Active, SlotKind::Idle);
        lemma_count_update(s.slots, i, Slot::Active, SlotKind::Active);
    } else {
        lemma_count_push(s.slots, Slot::Active, SlotKind::Idle);
        lemma_count_push(s.slots, Slot::Active, SlotKind::Active);
    }
}

/// What giving a connection back does to the counts.
pub proof fn lemma_release(s: PoolState, conn: ConnectionView, now: u64)
    requires
        s.inv(),
    ensures
        s.release(conn, now).0.inv(),
        s.release(conn, now).0.pending == s.pending,
        s.release(conn, now).1 == Released::Idle ==> s.release(conn, now).0.idle_count()
            == s.idle_count() + 1 && s.release(conn, now).0.active_count() + 1
            == s.active_count(),
        s.release(conn, now).1 == Released::Discarded ==> s.release(conn, now).0.idle_count()
            == s.idle_count() && s.release(conn, now).0.active_count() + 1 == s.active_count(),
        s.release(conn, now).1 == Released::Rejected ==> s.release(conn, now).0 == s,
        !s.release(conn, now).0.holds(conn.id),
{
    if s.holds(conn.id) {
        let slot = if conn.broken {
            Slot::Vacant
        } else {
            Slot::Idle { since: now }
        };
        lemma_count_update(s.slots, conn.id as int, slot, SlotKind::Idle);
        lemma_count_update(s.slots, conn.id as int, slot, SlotKind::Active);
    }
}

/// The open connections never outnumber the slots.
pub proof fn lemma_open_bounded(s: PoolState)
    requires
        s.inv(),
    ensures
        s.idle_count() + s.active_count() <= s.slots.len() <= s.max,
{
    lemma_count_total(s.slots);
}

} // verus!
