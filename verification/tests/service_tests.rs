use backend::config::{resolve, ConfigError, ConfigLayer, Defaults, ServiceConfig};
use backend::pool::{Acquired, Connection, Polled, Probe};
use backend::pool_state::{PoolError, Released};
use backend::routes::{get_routes, Method, RouteEntry, RouteError};
use backend::service::{
    exit_code, recovery, retry_delay, start, Phase, Recovery, RetryPolicy, RunningService,
    StartError, Stopping,
};

fn config(min: u32, max: usize, connect_timeout: u64) -> ServiceConfig {
    let defaults = Defaults {
        host: Some("db://books".to_string()),
        pool_min: min,
        pool_max: max,
        connect_timeout,
        idle_timeout: None,
        extensions: None,
    };
    resolve(defaults, ConfigLayer::empty(), ConfigLayer::empty()).unwrap()
}

fn service(min: u32, max: usize) -> RunningService {
    start(config(min, max, 100), Probe::Reachable { elapsed: 1 }, get_routes(), 0).unwrap()
}

fn ready(svc: &mut RunningService, now: u64) -> Connection {
    match svc.acquire(now) {
        Ok(Acquired::Ready(conn)) => conn,
        other => panic!("no connection: {:?}", other),
    }
}

fn route(method: Method, path: &str) -> RouteEntry {
    RouteEntry {
        method,
        path: path.to_string(),
        handler: "h".to_string(),
        metadata: String::new(),
    }
}

#[test]
fn start_sets_up_the_pool_and_the_routes() {
    let svc = service(2, 5);
    assert_eq!(svc.phase(), Phase::Serving);
    assert!(svc.accepting());
    assert_eq!(svc.pool().idle_count(), 2);
    assert_eq!(svc.pool().active_count(), 0);
    assert_eq!(svc.pool().capacity(), 5);
    assert_eq!(svc.registry().len(), 1);
    assert_eq!(svc.registry().route(0).unwrap().path, "/test");
    assert_eq!(svc.config().host(), "db://books");
}

#[test]
fn start_hands_on_the_error_of_the_pool() {
    let res = start(config(1, 2, 100), Probe::Unreachable, get_routes(), 0);
    assert_eq!(res.unwrap_err(), StartError::Pool(PoolError::PoolInitError));
    let res = start(config(1, 2, 100), Probe::Reachable { elapsed: 101 }, get_routes(), 0);
    assert_eq!(res.unwrap_err(), StartError::Pool(PoolError::PoolInitError));
}

#[test]
fn start_fails_on_a_duplicate_route() {
    let routes = vec![route(Method::Get, "/a"), route(Method::Get, "/a")];
    let res = start(config(1, 2, 100), Probe::Reachable { elapsed: 0 }, routes, 0);
    assert_eq!(res.unwrap_err(), StartError::Route(RouteError::DuplicateRoute));
}

#[test]
fn start_reports_the_pool_before_the_routes() {
    let routes = vec![route(Method::Get, "/a"), route(Method::Get, "/a")];
    let res = start(config(1, 2, 100), Probe::Unreachable, routes, 0);
    assert_eq!(res.unwrap_err(), StartError::Pool(PoolError::PoolInitError));
}

#[test]
fn start_accepts_no_routes_at_all() {
    let svc = start(config(0, 0, 0), Probe::Reachable { elapsed: 0 }, Vec::new(), 9).unwrap();
    assert_eq!(svc.registry().len(), 0);
    assert_eq!(svc.pool().capacity(), 0);
}

#[test]
fn retry_delay_doubles_up_to_the_cap() {
    let policy = RetryPolicy { max_retries: 10, base_delay: 100, max_delay: 1000 };
    assert_eq!(retry_delay(&policy, 0), 100);
    assert_eq!(retry_delay(&policy, 1), 200);
    assert_eq!(retry_delay(&policy, 2), 400);
    assert_eq!(retry_delay(&policy, 3), 800);
    assert_eq!(retry_delay(&policy, 4), 1000);
    assert_eq!(retry_delay(&policy, 5), 1000);
    assert_eq!(retry_delay(&policy, u32::MAX), 1000);
}

#[test]
fn retry_delay_at_the_edges() {
    let none = RetryPolicy { max_retries: 3, base_delay: 0, max_delay: 1000 };
    assert_eq!(retry_delay(&none, 0), 0);
    assert_eq!(retry_delay(&none, u32::MAX), 0);
    let capped = RetryPolicy { max_retries: 3, base_delay: 50, max_delay: 20 };
    assert_eq!(retry_delay(&capped, 0), 20);
    assert_eq!(retry_delay(&capped, 1), 20);
    let huge = RetryPolicy { max_retries: 3, base_delay: u64::MAX / 2 + 1, max_delay: u64::MAX };
    assert_eq!(retry_delay(&huge, 0), u64::MAX / 2 + 1);
    assert_eq!(retry_delay(&huge, 1), u64::MAX);
    let exact = RetryPolicy { max_retries: 3, base_delay: 4, max_delay: 16 };
    assert_eq!(retry_delay(&exact, 2), 16);
    assert_eq!(retry_delay(&exact, 3), 16);
}

#[test]
fn recovery_retries_an_unreachable_store_a_bounded_number_of_times() {
    let policy = RetryPolicy { max_retries: 3, base_delay: 10, max_delay: 25 };
    let unreachable = StartError::Pool(PoolError::PoolInitError);
    assert_eq!(recovery(&policy, 0, unreachable), Recovery::RetryAfter { delay: 10 });
    assert_eq!(recovery(&policy, 1, unreachable), Recovery::RetryAfter { delay: 20 });
    assert_eq!(recovery(&policy, 2, unreachable), Recovery::RetryAfter { delay: 25 });
    assert_eq!(recovery(&policy, 3, unreachable), Recovery::Fatal);
    assert_eq!(recovery(&policy, 4, unreachable), Recovery::Fatal);
    let never = RetryPolicy { max_retries: 0, base_delay: 10, max_delay: 25 };
    assert_eq!(recovery(&never, 0, unreachable), Recovery::Fatal);
}

#[test]
fn recovery_gives_up_at_once_on_every_other_error() {
    let policy = RetryPolicy { max_retries: 3, base_delay: 10, max_delay: 25 };
    let fatal = [
        StartError::Config(ConfigError::MissingHost),
        StartError::Config(ConfigError::InvalidPoolBounds),
        StartError::Route(RouteError::DuplicateRoute),
        StartError::Pool(PoolError::AcquireTimeout),
        StartError::Pool(PoolError::PoolClosed),
        StartError::Pool(PoolError::UnknownTicket),
    ];
    for error in fatal {
        assert_eq!(recovery(&policy, 0, error), Recovery::Fatal);
    }
}

#[test]
fn exit_code_is_zero_only_after_a_clean_run() {
    assert_eq!(exit_code(&Ok(())), 0);
    assert_eq!(exit_code(&Err(StartError::Config(ConfigError::MissingHost))), 1);
    assert_eq!(exit_code(&Err(StartError::Pool(PoolError::PoolInitError))), 1);
    assert_eq!(exit_code(&Err(StartError::Route(RouteError::DuplicateRoute))), 1);
}

#[test]
fn stop_drains_the_request_in_flight_then_closes_all_connections() {
    let mut svc = service(3, 3);
    let conn = ready(&mut svc, 1);
    assert_eq!((svc.pool().idle_count(), svc.pool().active_count()), (2, 1));
    // The first call stops the intake and waits for the request.
    assert!(matches!(svc.stop(10, 100), Stopping::Draining));
    assert_eq!(svc.phase(), Phase::Draining { since: 10 });
    assert!(!svc.accepting());
    assert!(matches!(svc.stop(50, 100), Stopping::Draining));
    assert_eq!(svc.phase(), Phase::Draining { since: 10 });
    // The request ends within the grace period.
    assert_eq!(svc.release(conn, 60), Released::Idle);
    match svc.stop(61, 100) {
        Stopping::Stopped(report) => {
            assert_eq!(report.connections, vec![0, 1, 2]);
            assert_eq!(report.waiters, 0);
        },
        Stopping::Draining => panic!("nothing is in flight"),
    }
    assert_eq!(svc.phase(), Phase::Stopped);
    assert!(svc.pool().is_closed());
    assert_eq!(svc.acquire(62).unwrap_err(), PoolError::PoolClosed);
}

#[test]
fn stop_closes_the_pool_when_the_grace_period_is_over() {
    let mut svc = service(3, 3);
    let conn = ready(&mut svc, 1);
    assert!(matches!(svc.stop(10, 100), Stopping::Draining));
    assert!(matches!(svc.stop(109, 100), Stopping::Draining));
    match svc.stop(110, 100) {
        Stopping::Stopped(report) => assert_eq!(report.connections.len(), 3),
        Stopping::Draining => panic!("the grace period is over"),
    }
    assert_eq!(svc.acquire(111).unwrap_err(), PoolError::PoolClosed);
    // The request that overstayed finds its connection closed.
    assert_eq!(svc.release(conn, 112), Released::Rejected);
}

#[test]
fn stop_is_immediate_when_nothing_is_in_flight() {
    let mut svc = service(2, 4);
    match svc.stop(5, 1000) {
        Stopping::Stopped(report) => {
            assert_eq!(report.connections, vec![0, 1]);
            assert_eq!(report.waiters, 0);
        },
        Stopping::Draining => panic!("nothing is in flight"),
    }
    assert_eq!(svc.phase(), Phase::Stopped);
}

#[test]
fn stop_waits_for_requests_that_wait_for_a_connection() {
    let mut svc = service(0, 1);
    let conn = ready(&mut svc, 0);
    let ticket = match svc.acquire(1) {
        Ok(Acquired::Queued(t)) => t,
        other => panic!("should queue: {:?}", other),
    };
    assert!(matches!(svc.stop(2, 50), Stopping::Draining));
    // Requests in flight still get their connection while the service drains.
    assert_eq!(svc.release(conn, 3), Released::Idle);
    let conn = match svc.poll(ticket, 4) {
        Ok(Polled::Ready(c)) => c,
        other => panic!("should be served: {:?}", other),
    };
    assert!(matches!(svc.stop(5, 50), Stopping::Draining));
    assert_eq!(svc.release(conn, 6), Released::Idle);
    assert!(matches!(svc.stop(7, 50), Stopping::Stopped(_)));
}

#[test]
fn stop_with_no_grace_closes_at_once_and_fails_the_waiting() {
    let mut svc = service(0, 1);
    let _conn = ready(&mut svc, 0);
    let ticket = match svc.acquire(1) {
        Ok(Acquired::Queued(t)) => t,
        other => panic!("should queue: {:?}", other),
    };
    match svc.stop(2, 0) {
        Stopping::Stopped(report) => {
            assert_eq!(report.connections, vec![0]);
            assert_eq!(report.waiters, 1);
        },
        Stopping::Draining => panic!("there is no grace period"),
    }
    assert_eq!(svc.poll(ticket, 3).unwrap_err(), PoolError::PoolClosed);
}

#[test]
fn a_stopped_service_stays_stopped() {
    let mut svc = service(1, 1);
    assert!(matches!(svc.stop(0, 10), Stopping::Stopped(_)));
    match svc.stop(1, 10) {
        Stopping::Stopped(report) => {
            assert!(report.connections.is_empty());
            assert_eq!(report.waiters, 0);
        },
        Stopping::Draining => panic!("the service is stopped"),
    }
    assert_eq!(svc.phase(), Phase::Stopped);
    assert!(!svc.accepting());
}

#[test]
fn the_service_forwards_cancel_and_reap() {
    let defaults = Defaults {
        host: Some("db://books".to_string()),
        pool_min: 1,
        pool_max: 1,
        connect_timeout: 100,
        idle_timeout: Some(5),
        extensions: None,
    };
    let cfg = resolve(defaults, ConfigLayer::empty(), ConfigLayer::empty()).unwrap();
    let mut svc = start(cfg, Probe::Reachable { elapsed: 0 }, get_routes(), 0).unwrap();
    let conn = ready(&mut svc, 0);
    let ticket = match svc.acquire(1) {
        Ok(Acquired::Queued(t)) => t,
        other => panic!("should queue: {:?}", other),
    };
    assert!(svc.cancel(ticket));
    assert_eq!(svc.pool().pending_count(), 0);
    assert_eq!(svc.release(conn, 2), Released::Idle);
    assert_eq!(svc.reap(7), Vec::<usize>::new());
    assert_eq!(svc.reap(8), vec![0]);
    assert_eq!(svc.pool().idle_count(), 0);
}
