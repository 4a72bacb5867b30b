//! Starting and stopping the service, step by step.
//!
//! The caller does the outside work: it reaches for the backing store, binds
//! the listener, sleeps between attempts and reads the clock. What to do
//! next is decided here.

use vstd::prelude::*;
use crate::config::{ConfigError, ServiceConfig, ServiceConfigView};
use crate::pool::{Acquired, Connection, ConnectionPool, Drained, Polled, Probe, Ticket};
use crate::pool_state::{
    elapsed, AcquiredView, PolledView, PoolError, PoolState, Released, Slot,
};
use crate::routes::{distinct, views, RouteEntry, RouteError, RouteRegistry, RouteView};

verus! {

/// Why the service did not start.
#[derive(Debug, Clone, Copy, PartialEq, Eq, Structural)]
pub enum StartError {
    /// The configuration could not be resolved.
    Config(ConfigError),
    /// The pool could not be set up; the pool's own error, unchanged.
    Pool(PoolError),
    /// The routes could not be registered.
    Route(RouteError),
}

/// How often and how long to wait before reaching for the backing store
/// again.
#[derive(Debug, Clone, Copy, PartialEq, Eq, Structural)]
pub struct RetryPolicy {
    /// The number of attempts after the first.
    pub max_retries: u32,
    /// The wait before the first retry.
    pub base_delay: u64,
    /// The longest wait.
    pub max_delay: u64,
}

/// What to do after a failed start.
#[derive(Debug, Clone, Copy, PartialEq, Eq, Structural)]
pub enum Recovery {
    /// Wait for `delay` ticks, then try again.
    RetryAfter { delay: u64 },
    /// Give up: the process ends.
    Fatal,
}

pub open spec fn least(a: int, b: int) -> int {
    if a <= b {
        a
    } else {
        b
    }
}

/// The wait before a retry when `attempt` retries were made before it: the
/// base delay, doubled with every retry, and never above the cap.
pub open spec fn backoff(base: u64, cap: u64, attempt: nat) -> int
    decreases attempt,
{
    if attempt == 0 {
        least(base as int, cap as int)
    } else {
        least(2 * backoff(base, cap, (attempt - 1) as nat), cap as int)
    }
}

/// What follows a failed start when `attempt` retries were made before it.
/// Only a store that did not answer is worth another attempt, and only as
/// long as retries are left.
pub open spec fn recovery_of(policy: RetryPolicy, attempt: u32, error: StartError) -> Recovery {
    if error == StartError::Pool(PoolError::PoolInitError) && attempt < policy.max_retries {
        Recovery::RetryAfter { delay: backoff(policy.base_delay, policy.max_delay, attempt as nat) as u64 }
    } else {
        Recovery::Fatal
    }
}

proof fn lemma_backoff_bounds(base: u64, cap: u64, attempt: nat)
    ensures
        0 <= backoff(base, cap, attempt) <= cap,
    decreases attempt,
{
    if attempt > 0 {
        lemma_backoff_bounds(base, cap, (attempt - 1) as nat);
    }
}

/// Once the wait is at the cap, or is zero, it stays there.
proof fn lemma_backoff_settled(base: u64, cap: u64, from: nat, to: nat)
    requires
        from <= to,
        backoff(base, cap, from) == cap || backoff(base, cap, from) == 0,
    ensures
        backoff(base, cap, to) == backoff(base, cap, from),
    decreases to,
{
    if from < to {
        lemma_backoff_settled(base, cap, from, (to - 1) as nat);
    }
}

/// The wait before a retry when `attempt` retries were made before it.
pub fn retry_delay(policy: &RetryPolicy, attempt: u32) -> (delay: u64)
    ensures
        delay == backoff(policy.base_delay, policy.max_delay, attempt as nat),
{
    let cap: u64 = policy.max_delay;
    let mut delay: u64 = if policy.base_delay <= cap {
        policy.base_delay
    } else {
        cap
    };
    let mut k: u32 = 0;
    while k < attempt
        invariant
            k <= attempt,
            cap == policy.max_delay,
            delay <= cap,
            delay == backoff(policy.base_delay, policy.max_delay, k as nat),
        decreases attempt - k,
    {
        if delay == cap || delay == 0 {
            proof {
                lemma_backoff_settled(
                    policy.base_delay,
                    policy.max_delay,
                    k as nat,
                    attempt as nat,
                );
            }
            return delay;
        }
        delay = if delay >= cap - delay {
            cap
        } else {
            delay + delay
        };
        k += 1;
    }
    delay
}

/// Decides what follows a failed start when `attempt` retries were made
/// before it.
pub fn recovery(policy: &RetryPolicy, attempt: u32, error: StartError) -> (next: Recovery)
    ensures
        next == recovery_of(*policy, attempt, error),
        next is RetryAfter ==> error == StartError::Pool(PoolError::PoolInitError),
{
    proof {
        lemma_backoff_bounds(policy.base_delay, policy.max_delay, attempt as nat);
    }
    match error {
        StartError::Pool(PoolError::PoolInitError) => {
            if attempt < policy.max_retries {
                Recovery::RetryAfter { delay: retry_delay(policy, attempt) }
            } else {
                Recovery::Fatal
            }
        },
        _ => Recovery::Fatal,
    }
}

/// The exit code of the process: 0 after a clean shutdown, 1 after a start
/// that failed for good.
pub fn exit_code(outcome: &Result<(), StartError>) -> (code: i32)
    ensures
        code == 0 <==> outcome is Ok,
        outcome is Err ==> code == 1,
{
    if outcome.is_ok() {
        0
    } else {
        1
    }
}

/// Where a started service stands.
#[derive(Debug, Clone, Copy, PartialEq, Eq, Structural)]
pub enum Phase {
    /// It accepts requests.
    Serving,
    /// It accepts no new request and waits, since the given tick, for those
    /// in flight to end.
    Draining { since: u64 },
    /// Its pool is shut down.
    Stopped,
}

/// One step of stopping the service.
#[derive(Debug)]
pub enum Stopping {
    /// Requests are still in flight and the grace period is not over: ask
    /// again later.
    Draining,
    /// The pool is shut down; here is what it left behind.
    Stopped(Drained),
}

pub struct ServiceView {
    pub config: ServiceConfigView,
    pub pool: PoolState,
    pub routes: Seq<RouteView>,
    pub phase: Phase,
}

impl ServiceView {
    /// No request holds a connection or waits for one.
    pub open spec fn drained(self) -> bool {
        self.pool.active_count() == 0 && self.pool.pending_count() == 0
    }

    /// The tick at which the service stopped accepting requests, if it is
    /// asked to stop at `now`.
    pub open spec fn draining_since(self, now: u64) -> u64 {
        match self.phase {
            Phase::Draining { since } => since,
            _ => now,
        }
    }

    /// The service after it was asked at `now` to stop within `grace` ticks
    /// of the first such call. It accepts no request from the first call on;
    /// its pool is shut down as soon as no request is in flight, and at the
    /// latest when the grace period is over.
    pub open spec fn stop(self, now: u64, grace: u64) -> ServiceView {
        if self.phase is Stopped {
            self
        } else if self.drained() || elapsed(self.draining_since(now), now) >= grace {
            ServiceView { pool: self.pool.shutdown(), phase: Phase::Stopped, ..self }
        } else {
            ServiceView { phase: Phase::Draining { since: self.draining_since(now) }, ..self }
        }
    }
}

/// A service that has started: its configuration, its pool and its routes.
#[derive(Debug)]
pub struct RunningService {
    config: ServiceConfig,
    pool: ConnectionPool,
    registry: RouteRegistry,
    phase: Phase,
}

impl View for RunningService {
    type V = ServiceView;

    closed spec fn view(&self) -> ServiceView {
        ServiceView {
            config: self.config@,
            pool: self.pool@,
            routes: self.registry@,
            phase: self.phase,
        }
    }
}

/// Starts the service on a resolved configuration: sets up the pool, given
/// what came of reaching the backing store, then registers the routes. The
/// caller binds the listener next.
///
/// Fails with the pool's error where the pool cannot be set up, whatever the
/// routes; else with `DuplicateRoute` where two routes answer the same
/// method on the same path.
pub fn start(config: ServiceConfig, probe: Probe, routes: Vec<RouteEntry>, now: u64) -> (res: Result<
    RunningService,
    StartError,
>)
    requires
        config.wf(),
    ensures
        !probe.within(config@.connect_timeout) ==> res matches Err(
            StartError::Pool(PoolError::PoolInitError),
        ),
        probe.within(config@.connect_timeout) && !distinct(views(routes@)) ==> res matches Err(
            StartError::Route(RouteError::DuplicateRoute),
        ),
        probe.within(config@.connect_timeout) && distinct(views(routes@)) ==> res is Ok,
        res matches Ok(service) ==> service.wf() && service@ == (ServiceView {
            config: config@,
            pool: PoolState::of_config(config@, now),
            routes: views(routes@),
            phase: Phase::Serving,
        }),
{
    let pool = match ConnectionPool::init(&config, probe, now) {
        Ok(pool) => pool,
        Err(e) => {
            return Err(StartError::Pool(e));
        },
    };
    let registry = match RouteRegistry::from_routes(&routes) {
        Ok(registry) => registry,
        Err(e) => {
            return Err(StartError::Route(e));
        },
    };
    Ok(RunningService { config, pool, registry, phase: Phase::Serving })
}

impl RunningService {
    /// The parts of the service are in order, and a stopped service has its
    /// pool shut down.
    pub closed spec fn wf(&self) -> bool {
        &&& self.config.wf()
        &&& self.pool.wf()
        &&& self.registry.wf()
        &&& self.phase is Stopped ==> self.pool@.closed
    }

    pub fn config(&self) -> (config: &ServiceConfig)
        ensures
            config@ == self@.config,
    {
        &self.config
    }

    pub fn pool(&self) -> (pool: &ConnectionPool)
        ensures
            pool@ == self@.pool,
            self.wf() ==> pool.wf(),
    {
        &self.pool
    }

    pub fn registry(&self) -> (registry: &RouteRegistry)
        ensures
            registry@ == self@.routes,
    {
        &self.registry
    }

    pub fn phase(&self) -> (phase: Phase)
        ensures
            phase == self@.phase,
    {
        self.phase
    }

    /// Whether the transport may take new requests.
    pub fn accepting(&self) -> (yes: bool)
        ensures
            yes == (self@.phase is Serving),
    {
        match self.phase {
            Phase::Serving => true,
            _ => false,
        }
    }

    /// Asks the pool for a connection, for a request.
    pub fn acquire(&mut self, now: u64) -> (res: Result<Acquired, PoolError>)
        requires
            old(self).wf(),
        ensures
            final(self).wf(),
            final(self)@ == (ServiceView { pool: old(self)@.pool.acquire(now).0, ..old(self)@ }),
            res matches Ok(got) ==> old(self)@.pool.acquire(now).1 == Ok::<AcquiredView, PoolError>(
                got@,
            ),
            res matches Err(e) ==> old(self)@.pool.acquire(now).1 == Err::<AcquiredView, PoolError>(
                e,
            ),
    {
        self.pool.acquire(now)
    }

    /// Asks the pool again, for a request that waits.
    pub fn poll(&mut self, ticket: Ticket, now: u64) -> (res: Result<Polled, PoolError>)
        requires
            old(self).wf(),
        ensures
            final(self).wf(),
            final(self)@ == (ServiceView {
                pool: old(self)@.pool.poll(ticket@, now).0,
                ..old(self)@
            }),
            res matches Ok(got) ==> old(self)@.pool.poll(ticket@, now).1 == Ok::<
                PolledView,
                PoolError,
            >(got@),
            res matches Err(e) ==> old(self)@.pool.poll(ticket@, now).1 == Err::<
                PolledView,
                PoolError,
            >(e),
    {
        self.pool.poll(ticket, now)
    }

    /// Gives up a request that waits.
    pub fn cancel(&mut self, ticket: Ticket) -> (was_waiting: bool)
        requires
            old(self).wf(),
        ensures
            final(self).wf(),
            final(self)@ == (ServiceView { pool: old(self)@.pool.cancel(ticket@), ..old(self)@ }),
            was_waiting == old(self)@.pool.pending.contains(ticket@),
    {
        self.pool.cancel(ticket)
    }

    /// Gives a connection back to the pool, at the end of a request.
    pub fn release(&mut self, conn: Connection, now: u64) -> (out: Released)
        requires
            old(self).wf(),
        ensures
            final(self).wf(),
            final(self)@ == (ServiceView {
                pool: old(self)@.pool.release(conn@, now).0,
                ..old(self)@
            }),
            out == old(self)@.pool.release(conn@, now).1,
    {
        self.pool.release(conn, now)
    }

    /// Lets the reaper run on the pool.
    pub fn reap(&mut self, now: u64) -> (closed: Vec<usize>)
        requires
            old(self).wf(),
        ensures
            final(self).wf(),
            final(self)@ == (ServiceView { pool: old(self)@.pool.reap(now), ..old(self)@ }),
            forall|k: int|
                0 <= k < closed@.len() ==> old(self)@.pool.reaps((#[trigger] closed@[k]) as int, now),
            forall|id: int| #[trigger]
                old(self)@.pool.reaps(id, now) ==> closed@.contains(id as usize),
            forall|j: int, k: int| 0 <= j < k < closed@.len() ==> closed@[j] < closed@[k],
    {
        self.pool.reap(now)
    }

    /// Asks the service at `now` to stop, within `grace` ticks of the first
    /// such call. The steps come in this order, whatever the caller does:
    /// from the first call on the service accepts no request; while requests
    /// are in flight and the grace period is not over it only waits; then
    /// its pool is shut down, and the answer lists what the pool left
    /// behind. A service that is stopped stays so.
    pub fn stop(&mut self, now: u64, grace: u64) -> (step: Stopping)
        requires
            old(self).wf(),
        ensures
            final(self).wf(),
            final(self)@ == old(self)@.stop(now, grace),
            !(final(self)@.phase is Serving),
            step is Stopped <==> final(self)@.phase is Stopped,
            step matches Stopping::Stopped(report) ==> report.waiters == old(
                self,
            )@.pool.pending_count() && report.connections@.len() == old(self)@.pool.idle_count()
                + old(self)@.pool.active_count(),
    {
        proof {
            self.pool.lemma_wf();
        }
        let since: u64 = match self.phase {
            Phase::Draining { since } => since,
            _ => now,
        };
        let waited: u64 = if now >= since {
            now - since
        } else {
            0
        };
        let in_flight = self.pool.active_count() > 0 || self.pool.pending_count() > 0;
        match self.phase {
            Phase::Stopped => {},
            _ => {
                if in_flight && waited < grace {
                    self.phase = Phase::Draining { since };
                    return Stopping::Draining;
                }
            },
        }
        let report = self.pool.shutdown();
        self.phase = Phase::Stopped;
        proof {
            if old(self)@.phase is Stopped {
                assert(old(self)@.pool.slots =~= Seq::<Slot>::empty());
                assert(old(self)@.pool.pending =~= Seq::<u64>::empty());
            }
        }
        Stopping::Stopped(report)
    }
}

} // verus!
