use nsq_async_rs::connection_pool::{
    eviction_for_new, first_usable, least_recently_used, pool_stats, retain_active,
    ConnectionPoolConfig, HealthStatus, PooledConnection,
};
use nsq_async_rs::pool::{
    Acquire, HookResult, Pool, PoolConfig, PoolError, PoolHooks, PooledConn, Returned,
};
use std::cell::Cell;
use std::sync::Arc;

struct State {
    next: Cell<u32>,
    created: Cell<u32>,
    closed: Cell<u32>,
    ping_ok: Cell<bool>,
    close_ok: Cell<bool>,
    create_ok: Cell<bool>,
}

impl State {
    fn new() -> Self {
        State {
            next: Cell::new(0),
            created: Cell::new(0),
            closed: Cell::new(0),
            ping_ok: Cell::new(true),
            close_ok: Cell::new(true),
            create_ok: Cell::new(true),
        }
    }
}

fn hooks_of(
    st: &State,
) -> PoolHooks<
    impl Fn() -> Result<u32, PoolError> + '_,
    impl Fn(&Arc<u32>) -> HookResult + '_,
    impl Fn(&Arc<u32>) -> HookResult + '_,
> {
    PoolHooks {
        create: move || {
            if !st.create_ok.get() {
                return Err(PoolError::CreateConnection("refused".to_string()));
            }
            let n = st.next.get();
            st.next.set(n + 1);
            st.created.set(st.created.get() + 1);
            Ok(n)
        },
        close: move |_c: &Arc<u32>| {
            st.closed.set(st.closed.get() + 1);
            if st.close_ok.get() { Ok(()) } else { Err("close failed".to_string()) }
        },
        ping: Some(move |_c: &Arc<u32>| if st.ping_ok.get() { Ok(()) } else { Err("dead".to_string()) }),
    }
}

fn config(initial: usize, max: usize, idle: usize) -> PoolConfig {
    PoolConfig { initial_cap: initial, max_cap: max, max_idle: idle, idle_timeout_ms: 1000, max_lifetime_ms: 5000 }
}

fn got(a: Acquire<u32>) -> PooledConn<u32> {
    match a {
        Acquire::Got(c) => c,
        Acquire::Wait => panic!("expected a connection"),
    }
}

#[test]
fn default_pool_config() {
    let c = PoolConfig::default();
    assert_eq!((c.initial_cap, c.max_cap, c.max_idle), (5, 20, 10));
    assert_eq!((c.idle_timeout_ms, c.max_lifetime_ms), (30_000, 300_000));
}

#[test]
fn pool_reuses_idle_connections_in_order() {
    let st = State::new();
    let hooks = hooks_of(&st);
    let mut pool: Pool<u32, u8> = Pool::new(config(2, 3, 2), &hooks, 0).unwrap();
    assert_eq!((pool.idle_count(), pool.active_count()), (2, 2));
    let a = got(pool.get(10, &hooks, 0).unwrap());
    assert_eq!(*a.conn, 0);
    let b = got(pool.get(10, &hooks, 0).unwrap());
    assert_eq!(*b.conn, 1);
    let c = got(pool.get(10, &hooks, 0).unwrap());
    assert_eq!(*c.conn, 2);
    assert_eq!(pool.active_count(), 3);
    assert!(matches!(pool.get(10, &hooks, 9).unwrap(), Acquire::Wait));
    match pool.put(a, 20, &hooks).unwrap() {
        Returned::HandOver(w, c) => {
            assert_eq!(w, 9);
            assert_eq!(*c.conn, 0);
        }
        _ => panic!("expected a hand-over"),
    }
    assert!(matches!(pool.put(b, 20, &hooks).unwrap(), Returned::Kept));
    assert_eq!(pool.idle_count(), 1);
}

#[test]
fn stale_connections_are_closed_on_get() {
    let st = State::new();
    let hooks = hooks_of(&st);
    let mut pool: Pool<u32, u8> = Pool::new(config(2, 5, 5), &hooks, 0).unwrap();
    let c = got(pool.get(2000, &hooks, 0).unwrap());
    assert_eq!(*c.conn, 2);
    assert_eq!(st.closed.get(), 2);
    assert_eq!(pool.active_count(), 1);
    assert_eq!(pool.idle_count(), 0);
}

#[test]
fn rejected_connections_are_closed_on_get() {
    let st = State::new();
    let hooks = hooks_of(&st);
    let mut pool: Pool<u32, u8> = Pool::new(config(1, 5, 5), &hooks, 0).unwrap();
    st.ping_ok.set(false);
    let c = got(pool.get(1, &hooks, 0).unwrap());
    assert_eq!(*c.conn, 1);
    assert_eq!(pool.active_count(), 1);
}

#[test]
fn put_closes_old_or_overflowing_connections() {
    let st = State::new();
    let hooks = hooks_of(&st);
    let mut pool: Pool<u32, u8> = Pool::new(config(0, 5, 1), &hooks, 0).unwrap();
    let a = got(pool.get(0, &hooks, 0).unwrap());
    let b = got(pool.get(0, &hooks, 0).unwrap());
    let c = got(pool.get(0, &hooks, 0).unwrap());
    assert!(matches!(pool.put(a, 6000, &hooks).unwrap(), Returned::Dropped));
    assert_eq!(pool.active_count(), 2);
    assert!(matches!(pool.put(b, 10, &hooks).unwrap(), Returned::Kept));
    assert!(matches!(pool.put(c, 10, &hooks).unwrap(), Returned::Dropped));
    assert_eq!((pool.idle_count(), pool.active_count()), (1, 1));
}

#[test]
fn put_reports_close_failures() {
    let st = State::new();
    let hooks = hooks_of(&st);
    let mut pool: Pool<u32, u8> = Pool::new(config(0, 5, 0), &hooks, 0).unwrap();
    let a = got(pool.get(0, &hooks, 0).unwrap());
    st.close_ok.set(false);
    assert!(matches!(pool.put(a, 1, &hooks), Err(PoolError::CloseConnection(m)) if m == "close failed"));
    assert_eq!(pool.active_count(), 1);
}

#[test]
fn clean_removes_only_long_idle_connections() {
    let st = State::new();
    let hooks = hooks_of(&st);
    let mut pool: Pool<u32, u8> = Pool::new(config(1, 5, 5), &hooks, 0).unwrap();
    let a = got(pool.get(500, &hooks, 0).unwrap());
    let _ = pool.put(a, 800, &hooks);
    let b = got(pool.get(800, &hooks, 0).unwrap());
    let _ = pool.put(b, 900, &hooks);
    pool.clean_idle_conns(1850, &hooks).unwrap();
    assert_eq!(pool.idle_count(), 1);
    assert_eq!(pool.active_count(), 1);
}

#[test]
fn release_closes_everything_and_refuses_later_gets() {
    let st = State::new();
    let hooks = hooks_of(&st);
    let mut pool: Pool<u32, u8> = Pool::new(config(2, 2, 2), &hooks, 0).unwrap();
    let a = got(pool.get(0, &hooks, 0).unwrap());
    let b = got(pool.get(0, &hooks, 0).unwrap());
    assert!(matches!(pool.get(0, &hooks, 4).unwrap(), Acquire::Wait));
    let _ = pool.put(b, 0, &hooks);
    let _ = a;
    let waiting = pool.release(&hooks).unwrap();
    assert!(waiting.is_empty());
    assert_eq!((pool.idle_count(), pool.active_count()), (0, 0));
    assert!(pool.closed());
    assert!(matches!(pool.get(0, &hooks, 0), Err(PoolError::Closed)));
}

#[test]
fn factory_failure_is_reported() {
    let st = State::new();
    let hooks = hooks_of(&st);
    st.create_ok.set(false);
    assert!(matches!(Pool::<u32, u8>::new(config(1, 2, 2), &hooks, 0), Err(PoolError::CreateConnection(_))));
    let mut pool: Pool<u32, u8> = Pool::new(config(0, 2, 2), &hooks, 0).unwrap();
    assert!(matches!(pool.get(0, &hooks, 0), Err(PoolError::CreateConnection(_))));
    assert_eq!(pool.active_count(), 0);
}

fn pooled(id: u32, last_used: u64, status: HealthStatus) -> PooledConnection<u32> {
    let mut c = PooledConnection::new(Arc::new(id), format!("fp{}", id), last_used);
    c.health_status = status;
    c
}

#[test]
fn connection_pool_choices() {
    let conns = vec![
        pooled(0, 50, HealthStatus::Unhealthy),
        pooled(1, 10, HealthStatus::Unknown),
        pooled(2, 10, HealthStatus::Healthy),
    ];
    assert_eq!(first_usable(&conns), Some(1));
    assert_eq!(least_recently_used(&conns), Some(1));
    assert_eq!(eviction_for_new(&conns, 3), Some(1));
    assert_eq!(eviction_for_new(&conns, 4), None);
    let tied = vec![
        pooled(0, 30, HealthStatus::Healthy),
        pooled(1, 10, HealthStatus::Healthy),
        pooled(2, 10, HealthStatus::Healthy),
    ];
    assert_eq!(eviction_for_new(&tied, 3), Some(1));
    let sick = vec![pooled(0, 1, HealthStatus::Unhealthy)];
    assert_eq!(first_usable(&sick), None);
}

#[test]
fn connection_pool_stats_and_cleanup() {
    let cfg = ConnectionPoolConfig::default();
    assert_eq!(cfg.max_connections_per_host, 10);
    let hosts = vec![
        vec![pooled(0, 0, HealthStatus::Healthy), pooled(1, 100_000, HealthStatus::Unknown)],
        vec![pooled(2, 0, HealthStatus::Unhealthy)],
    ];
    let s = pool_stats(&hosts, cfg.max_idle_time_ms, 100_000);
    assert_eq!(s.total_connections, 3);
    assert_eq!(s.healthy_connections, 1);
    assert_eq!(s.unhealthy_connections, 1);
    assert_eq!(s.unknown_status_connections, 1);
    assert_eq!(s.idle_connections, 2);
    assert_eq!(s.host_count, 2);
    let mut first = vec![pooled(0, 0, HealthStatus::Healthy), pooled(1, 100_000, HealthStatus::Unknown)];
    retain_active(&mut first, cfg.max_idle_time_ms, 100_000);
    assert_eq!(first.len(), 1);
    assert_eq!(*first[0].connection, 1);
    let after = pool_stats(&vec![first], cfg.max_idle_time_ms, 100_000);
    assert_eq!(after.idle_connections, 0);
    assert_eq!(after.total_connections, 1);
}

#[test]
fn pooled_connection_bookkeeping() {
    let mut c = pooled(0, 10, HealthStatus::Unknown);
    assert!(!c.is_idle(100, 50));
    assert!(c.is_idle(100, 200));
    c.update_last_used(150);
    assert!(!c.is_idle(100, 200));
    assert!(c.needs_health_check(100, 200));
    assert!(!c.record_health(false, 200));
    assert_eq!(c.health_status, HealthStatus::Unhealthy);
    assert!(!c.needs_health_check(100, 250));
    assert!(c.record_health(true, 300));
    assert_eq!(c.health_status, HealthStatus::Healthy);
}

#[test]
fn put_after_get_restores_counts() {
    let st = State::new();
    let hooks = hooks_of(&st);
    let mut pool: Pool<u32, u8> = Pool::new(config(3, 10, 5), &hooks, 0).unwrap();
    assert_eq!(st.created.get(), 3);
    let (idle, open) = (pool.idle_count(), pool.active_count());
    let c = got(pool.get(10, &hooks, 0).unwrap());
    assert_eq!(*c.conn, 0);
    assert_eq!(c.created_time, 0);
    assert_eq!((pool.idle_count(), pool.active_count()), (idle - 1, open));
    assert!(matches!(pool.put(c, 20, &hooks).unwrap(), Returned::Kept));
    assert_eq!((pool.idle_count(), pool.active_count()), (idle, open));
    assert_eq!(st.closed.get(), 0);
    assert_eq!(st.created.get(), 3);
}

#[test]
fn clean_without_expiry_changes_nothing() {
    let st = State::new();
    let hooks = hooks_of(&st);
    let mut pool: Pool<u32, u8> = Pool::new(
        PoolConfig { initial_cap: 2, max_cap: 5, max_idle: 5, idle_timeout_ms: 0, max_lifetime_ms: 0 },
        &hooks,
        0,
    )
    .unwrap();
    st.close_ok.set(false);
    assert!(pool.clean_idle_conns(1_000_000, &hooks).is_ok());
    assert_eq!((pool.idle_count(), pool.active_count()), (2, 2));
    assert_eq!(st.closed.get(), 0);
}

#[test]
fn release_hands_each_idle_connection_to_close() {
    let st = State::new();
    let hooks = hooks_of(&st);
    let mut pool: Pool<u32, u8> = Pool::new(config(3, 5, 5), &hooks, 0).unwrap();
    assert!(pool.release(&hooks).is_ok());
    assert_eq!(st.closed.get(), 3);
    let st2 = State::new();
    let hooks2 = hooks_of(&st2);
    let mut failing: Pool<u32, u8> = Pool::new(config(3, 5, 5), &hooks2, 0).unwrap();
    st2.close_ok.set(false);
    assert!(matches!(failing.release(&hooks2), Err(PoolError::CloseConnection(m)) if m == "close failed"));
    assert_eq!(st2.closed.get(), 1);
    assert_eq!(failing.idle_count(), 2);
    assert!(failing.closed());
}
