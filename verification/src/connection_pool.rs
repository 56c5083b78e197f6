//! The bookkeeping of a pool of nsqd connections grouped by host: health
//! states, idleness, which connection a request reuses, which one is
//! replaced when a host is full, and the pool's statistics.
//!
//! Time is a millisecond clock that the caller reads and passes in.

use crate::pool::{elapsed, expired};
use std::sync::Arc;
use vstd::prelude::*;

verus! {

/// Settings of a connection pool; times in milliseconds.
#[derive(Debug, Clone, Copy)]
pub struct ConnectionPoolConfig {
    /// How long connecting may take.
    pub connection_timeout_ms: u64,
    /// How long a connection may stay unused before it is cleaned up.
    pub max_idle_time_ms: u64,
    /// How often connections are health-checked.
    pub health_check_interval_ms: u64,
    /// Connections kept at most per host.
    pub max_connections_per_host: usize,
}

impl Default for ConnectionPoolConfig {
    fn default() -> (r: ConnectionPoolConfig)
        ensures
            r.connection_timeout_ms == 5_000,
            r.max_idle_time_ms == 60_000,
            r.health_check_interval_ms == 30_000,
            r.max_connections_per_host == 10,
    {
        ConnectionPoolConfig {
            connection_timeout_ms: 5_000,
            max_idle_time_ms: 60_000,
            health_check_interval_ms: 30_000,
            max_connections_per_host: 10,
        }
    }
}

/// The health of a pooled connection.
#[derive(Debug, Clone, Copy, PartialEq, Eq, Structural)]
pub enum HealthStatus {
    /// Not checked yet.
    Unknown,
    /// The last check succeeded.
    Healthy,
    /// The last check failed.
    Unhealthy,
}

/// A pooled connection with its bookkeeping.
#[derive(Debug)]
pub struct PooledConnection<C> {
    pub connection: Arc<C>,
    pub last_used: u64,
    pub last_checked: u64,
    pub health_status: HealthStatus,
    pub fingerprint: String,
}

impl<C> PooledConnection<C> {
    /// A connection just added to the pool at `now`: used and checked now,
    /// health unknown.
    pub fn new(connection: Arc<C>, fingerprint: String, now: u64) -> (r: Self)
        ensures
            r.connection == connection,
            r.fingerprint == fingerprint,
            r.last_used == now,
            r.last_checked == now,
            r.health_status == HealthStatus::Unknown,
    {
        PooledConnection {
            connection,
            last_used: now,
            last_checked: now,
            health_status: HealthStatus::Unknown,
            fingerprint,
        }
    }

    /// Records a health check made at `now` and its result; gives the result.
    pub fn record_health(&mut self, healthy: bool, now: u64) -> (r: bool)
        ensures
            r == healthy,
            final(self).last_checked == now,
            final(self).health_status == if healthy {
                HealthStatus::Healthy
            } else {
                HealthStatus::Unhealthy
            },
            final(self).last_used == old(self).last_used,
            final(self).connection == old(self).connection,
            final(self).fingerprint == old(self).fingerprint,
    {
        self.last_checked = now;
        self.health_status = if healthy {
            HealthStatus::Healthy
        } else {
            HealthStatus::Unhealthy
        };
        healthy
    }

    /// Records a use at `now`.
    pub fn update_last_used(&mut self, now: u64)
        ensures
            final(self).last_used == now,
            final(self).last_checked == old(self).last_checked,
            final(self).health_status == old(self).health_status,
            final(self).connection == old(self).connection,
            final(self).fingerprint == old(self).fingerprint,
    {
        self.last_used = now;
    }

    /// Whether the connection was unused for longer than `max_idle_ms`.
    pub fn is_idle(&self, max_idle_ms: u64, now: u64) -> (r: bool)
        ensures
            r == (elapsed(now, self.last_used) > max_idle_ms),
    {
        let since = if now >= self.last_used {
            now - self.last_used
        } else {
            0
        };
        since > max_idle_ms
    }

    /// Whether the connection is due for a health check: unchecked for longer
    /// than `interval_ms`.
    pub fn needs_health_check(&self, interval_ms: u64, now: u64) -> (r: bool)
        ensures
            r == (elapsed(now, self.last_checked) > interval_ms),
    {
        let since = if now >= self.last_checked {
            now - self.last_checked
        } else {
            0
        };
        since > interval_ms
    }
}

/// The first connection of a host that is not known to be unhealthy.
pub fn first_usable<C>(conns: &Vec<PooledConnection<C>>) -> (r: Option<usize>)
    ensures
        r matches Some(i) ==> i < conns@.len() && conns@[i as int].health_status
            != HealthStatus::Unhealthy && forall|k: int|
            0 <= k < i ==> #[trigger] conns@[k].health_status == HealthStatus::Unhealthy,
        r is None ==> forall|k: int|
            0 <= k < conns@.len() ==> #[trigger] conns@[k].health_status
                == HealthStatus::Unhealthy,
{
    let mut i: usize = 0;
    while i < conns.len()
        invariant
            i <= conns@.len(),
            forall|k: int| 0 <= k < i ==> #[trigger] conns@[k].health_status == HealthStatus::Unhealthy,
        decreases conns@.len() - i,
    {
        match conns[i].health_status {
            HealthStatus::Unhealthy => {},
            _ => {
                return Some(i);
            },
        }
        i = i + 1;
    }
    None
}

/// The connection of a host used least recently; the first of them on a tie.
pub fn least_recently_used<C>(conns: &Vec<PooledConnection<C>>) -> (r: Option<usize>)
    ensures
        conns@.len() == 0 <==> r is None,
        r matches Some(i) ==> i < conns@.len() && (forall|k: int|
            0 <= k < conns@.len() ==> conns@[i as int].last_used <= #[trigger] conns@[k].last_used)
            && (forall|k: int|
            0 <= k < i ==> conns@[i as int].last_used < #[trigger] conns@[k].last_used),
{
    if conns.len() == 0 {
        return None;
    }
    let mut best: usize = 0;
    let mut i: usize = 1;
    while i < conns.len()
        invariant
            1 <= i <= conns@.len(),
            best < i,
            forall|k: int| 0 <= k < i ==> conns@[best as int].last_used <= #[trigger] conns@[k].last_used,
            forall|k: int| 0 <= k < best ==> conns@[best as int].last_used < #[trigger] conns@[k].last_used,
        decreases conns@.len() - i,
    {
        if conns[i].last_used < conns[best].last_used {
            best = i;
        }
        i = i + 1;
    }
    Some(best)
}

/// Which connection must make room for a new one on a host: none while the
/// host is below its limit, else the least recently used one, the first of
/// them on a tie.
pub fn eviction_for_new<C>(conns: &Vec<PooledConnection<C>>, max_per_host: usize) -> (r: Option<
    usize,
>)
    ensures
        conns@.len() < max_per_host ==> r is None,
        conns@.len() >= max_per_host && conns@.len() > 0 ==> (r matches Some(i) && i < conns@.len()
            && (forall|k: int|
            0 <= k < conns@.len() ==> conns@[i as int].last_used <= #[trigger] conns@[k].last_used)
            && (forall|k: int|
            0 <= k < i ==> conns@[i as int].last_used < #[trigger] conns@[k].last_used)),
        conns@.len() == 0 ==> r is None,
{
    if conns.len() < max_per_host {
        return None;
    }
    least_recently_used(conns)
}

/// The connections of a host that are not idle for longer than
/// `max_idle_ms`, in order.
pub open spec fn active_conns<C>(conns: Seq<PooledConnection<C>>, max_idle_ms: u64, now: u64) -> Seq<
    PooledConnection<C>,
>
    decreases conns.len(),
{
    if conns.len() == 0 {
        Seq::empty()
    } else {
        let rest = active_conns(conns.drop_last(), max_idle_ms, now);
        if elapsed(now, conns.last().last_used) > max_idle_ms {
            rest
        } else {
            rest.push(conns.last())
        }
    }
}

/// Removes from a host the connections idle for longer than `max_idle_ms`,
/// keeping the others in order.
pub fn retain_active<C>(conns: &mut Vec<PooledConnection<C>>, max_idle_ms: u64, now: u64)
    ensures
        final(conns)@ == active_conns(old(conns)@, max_idle_ms, now),
{
    let mut all: Vec<PooledConnection<C>> = Vec::new();
    std::mem::swap(&mut all, conns);
    let ghost start = all@;
    let mut rev: Vec<PooledConnection<C>> = Vec::new();
    while all.len() > 0
        invariant
            all@ + rev@.reverse() == start,
        decreases all@.len(),
    {
        let c = all.pop().unwrap();
        rev.push(c);
        proof {
            assert(all@ + rev@.reverse() =~= start);
        }
    }
    assert(rev@.reverse() =~= start);
    let mut kept: Vec<PooledConnection<C>> = Vec::new();
    let ghost mut done: int = 0;
    while rev.len() > 0
        invariant
            0 <= done <= start.len(),
            rev@.reverse() == start.skip(done),
            kept@ == active_conns(start.take(done), max_idle_ms, now),
        decreases rev@.len(),
    {
        proof {
            assert(rev@.reverse().len() == rev@.len());
            assert(done < start.len());
        }
        let ghost r0 = rev@;
        let c = rev.pop().unwrap();
        proof {
            assert forall|k: int| 0 <= k < rev@.len() implies #[trigger] rev@.reverse()[k]
                == r0.reverse()[k + 1] by {}
            assert(rev@.reverse() =~= r0.reverse().drop_first());
            assert(start.skip(done).drop_first() =~= start.skip(done + 1));
        }
        proof {
            assert(start.skip(done)[0] == c);
            assert(start.take(done + 1).drop_last() =~= start.take(done));
            assert(start.take(done + 1).last() == c);
        }
        if !c.is_idle(max_idle_ms, now) {
            kept.push(c);
        }
        proof {
            done = done + 1;
            assert(rev@.reverse() =~= start.skip(done));
        }
    }
    assert(start.take(done) =~= start);
    *conns = kept;
}

/// Statistics of a connection pool.
#[derive(Debug, Default, Clone, Copy)]
pub struct ConnectionPoolStats {
    pub total_connections: usize,
    pub healthy_connections: usize,
    pub unhealthy_connections: usize,
    pub unknown_status_connections: usize,
    pub idle_connections: usize,
    pub host_count: usize,
}

/// How many connections of a host have the given health.
pub open spec fn count_health<C>(conns: Seq<PooledConnection<C>>, status: HealthStatus) -> nat
    decreases conns.len(),
{
    if conns.len() == 0 {
        0
    } else {
        count_health(conns.drop_last(), status) + if conns.last().health_status == status {
            1nat
        } else {
            0nat
        }
    }
}

/// How many connections of a host are idle for longer than `max_idle_ms`.
pub open spec fn count_idle<C>(conns: Seq<PooledConnection<C>>, max_idle_ms: u64, now: u64) -> nat
    decreases conns.len(),
{
    if conns.len() == 0 {
        0
    } else {
        count_idle(conns.drop_last(), max_idle_ms, now) + if elapsed(now, conns.last().last_used)
            > max_idle_ms {
            1nat
        } else {
            0nat
        }
    }
}

/// The statistics of one host's connections.
pub open spec fn host_stats<C>(conns: Seq<PooledConnection<C>>, max_idle_ms: u64, now: u64) -> (
    nat,
    nat,
    nat,
    nat,
    nat,
) {
    (
        conns.len(),
        count_health(conns, HealthStatus::Healthy),
        count_health(conns, HealthStatus::Unhealthy),
        count_health(conns, HealthStatus::Unknown),
        count_idle(conns, max_idle_ms, now),
    )
}

/// The statistics of several hosts' connections, summed.
pub open spec fn hosts_stats<C>(hosts: Seq<Vec<PooledConnection<C>>>, max_idle_ms: u64, now: u64) -> (
    nat,
    nat,
    nat,
    nat,
    nat,
)
    decreases hosts.len(),
{
    if hosts.len() == 0 {
        (0, 0, 0, 0, 0)
    } else {
        let a = hosts_stats(hosts.drop_last(), max_idle_ms, now);
        let b = host_stats(hosts.last()@, max_idle_ms, now);
        (a.0 + b.0, a.1 + b.1, a.2 + b.2, a.3 + b.3, a.4 + b.4)
    }
}

/// The counts never exceed the number of connections.
pub proof fn lemma_counts_bounded<C>(conns: Seq<PooledConnection<C>>, max_idle_ms: u64, now: u64)
    ensures
        count_health(conns, HealthStatus::Healthy) + count_health(conns, HealthStatus::Unhealthy)
            + count_health(conns, HealthStatus::Unknown) == conns.len(),
        count_idle(conns, max_idle_ms, now) <= conns.len(),
    decreases conns.len(),
{
    if conns.len() > 0 {
        lemma_counts_bounded(conns.drop_last(), max_idle_ms, now);
    }
}

/// The summed counts never exceed the summed connections.
pub proof fn lemma_hosts_counts_bounded<C>(hosts: Seq<Vec<PooledConnection<C>>>, max_idle_ms: u64, now: u64)
    ensures
        ({
            let s = hosts_stats(hosts, max_idle_ms, now);
            s.1 + s.2 + s.3 == s.0 && s.4 <= s.0
        }),
    decreases hosts.len(),
{
    if hosts.len() > 0 {
        lemma_hosts_counts_bounded(hosts.drop_last(), max_idle_ms, now);
        lemma_counts_bounded(hosts.last()@, max_idle_ms, now);
    }
}

/// Cleanup keeps exactly the connections last used no more than
/// `max_idle_ms` before `now`, in their order, and the statistics count as
/// idle exactly the others; when they were last health-checked plays no
/// part.
pub proof fn law_idleness_is_time_since_last_use<C>(
    conns: Seq<PooledConnection<C>>,
    max_idle_ms: u64,
    now: u64,
)
    ensures
        active_conns(conns, max_idle_ms, now) == conns.filter(
            |c: PooledConnection<C>|
                !(now >= c.last_used && now - c.last_used > max_idle_ms),
        ),
        count_idle(conns, max_idle_ms, now) == conns.filter(
            |c: PooledConnection<C>| now >= c.last_used && now - c.last_used > max_idle_ms,
        ).len(),
    decreases conns.len(),
{
    reveal(Seq::filter);
    if conns.len() > 0 {
        law_idleness_is_time_since_last_use(conns.drop_last(), max_idle_ms, now);
    }
}

/// How many connections of a host the statistics count with a health is
/// the number of connections with that health.
pub proof fn law_health_counts_are_exact<C>(conns: Seq<PooledConnection<C>>, status: HealthStatus)
    ensures
        count_health(conns, status) == conns.filter(
            |c: PooledConnection<C>| c.health_status == status,
        ).len(),
    decreases conns.len(),
{
    reveal(Seq::filter);
    if conns.len() > 0 {
        law_health_counts_are_exact(conns.drop_last(), status);
    }
}

/// A cleanup at `now` removes exactly the connections the statistics at
/// `now` count as idle, and leaves none that they would count.
pub proof fn law_cleanup_removes_the_idle<C>(conns: Seq<PooledConnection<C>>, max_idle_ms: u64, now: u64)
    ensures
        active_conns(conns, max_idle_ms, now).len() + count_idle(conns, max_idle_ms, now)
            == conns.len(),
        count_idle(active_conns(conns, max_idle_ms, now), max_idle_ms, now) == 0,
    decreases conns.len(),
{
    if conns.len() > 0 {
        law_cleanup_removes_the_idle(conns.drop_last(), max_idle_ms, now);
        let rest = active_conns(conns.drop_last(), max_idle_ms, now);
        assert(rest.push(conns.last()).drop_last() =~= rest);
    }
}

/// Adds one host's connections to running statistics.
fn add_host<C>(stats: &mut ConnectionPoolStats, conns: &Vec<PooledConnection<C>>, max_idle_ms: u64, now: u64)
    requires
        old(stats).total_connections + conns@.len() <= usize::MAX,
        old(stats).healthy_connections + old(stats).unhealthy_connections
            + old(stats).unknown_status_connections == old(stats).total_connections,
        old(stats).idle_connections <= old(stats).total_connections,
    ensures
        final(stats).total_connections == old(stats).total_connections + conns@.len(),
        final(stats).healthy_connections == old(stats).healthy_connections + count_health(
            conns@,
            HealthStatus::Healthy,
        ),
        final(stats).unhealthy_connections == old(stats).unhealthy_connections + count_health(
            conns@,
            HealthStatus::Unhealthy,
        ),
        final(stats).unknown_status_connections == old(stats).unknown_status_connections
            + count_health(conns@, HealthStatus::Unknown),
        final(stats).idle_connections == old(stats).idle_connections + count_idle(
            conns@,
            max_idle_ms,
            now,
        ),
        final(stats).host_count == old(stats).host_count,
{
    stats.total_connections = stats.total_connections + conns.len();
    let mut i: usize = 0;
    while i < conns.len()
        invariant
            i <= conns@.len(),
            stats.total_connections == old(stats).total_connections + conns@.len(),
            stats.host_count == old(stats).host_count,
            stats.healthy_connections == old(stats).healthy_connections + count_health(
                conns@.take(i as int),
                HealthStatus::Healthy,
            ),
            stats.unhealthy_connections == old(stats).unhealthy_connections + count_health(
                conns@.take(i as int),
                HealthStatus::Unhealthy,
            ),
            stats.unknown_status_connections == old(stats).unknown_status_connections
                + count_health(conns@.take(i as int), HealthStatus::Unknown),
            stats.idle_connections == old(stats).idle_connections + count_idle(
                conns@.take(i as int),
                max_idle_ms,
                now,
            ),
            old(stats).total_connections + conns@.len() <= usize::MAX,
            old(stats).healthy_connections + old(stats).unhealthy_connections
                + old(stats).unknown_status_connections == old(stats).total_connections,
            old(stats).idle_connections <= old(stats).total_connections,
        decreases conns@.len() - i,
    {
        proof {
            assert(conns@.take(i + 1).drop_last() =~= conns@.take(i as int));
            lemma_counts_bounded(conns@.take(i as int), max_idle_ms, now);
        }
        let c = &conns[i];
        match c.health_status {
            HealthStatus::Healthy => {
                stats.healthy_connections = stats.healthy_connections + 1;
            },
            HealthStatus::Unhealthy => {
                stats.unhealthy_connections = stats.unhealthy_connections + 1;
            },
            HealthStatus::Unknown => {
                stats.unknown_status_connections = stats.unknown_status_connections + 1;
            },
        }
        if c.is_idle(max_idle_ms, now) {
            stats.idle_connections = stats.idle_connections + 1;
        }
        i = i + 1;
    }
    assert(conns@.take(i as int) =~= conns@);
}

/// The total number of connections across hosts.
pub open spec fn total_len<C>(hosts: Seq<Vec<PooledConnection<C>>>) -> nat
    decreases hosts.len(),
{
    if hosts.len() == 0 {
        0
    } else {
        total_len(hosts.drop_last()) + hosts.last()@.len()
    }
}

/// The statistics of a pool whose hosts hold `hosts`.
pub fn pool_stats<C>(hosts: &Vec<Vec<PooledConnection<C>>>, max_idle_ms: u64, now: u64) -> (r:
    ConnectionPoolStats)
    requires
        total_len(hosts@) <= usize::MAX,
    ensures
        ({
            let s = hosts_stats(hosts@, max_idle_ms, now);
            &&& r.total_connections == s.0
            &&& r.healthy_connections == s.1
            &&& r.unhealthy_connections == s.2
            &&& r.unknown_status_connections == s.3
            &&& r.idle_connections == s.4
            &&& r.host_count == hosts@.len()
        }),
{
    let mut stats = ConnectionPoolStats {
        total_connections: 0,
        healthy_connections: 0,
        unhealthy_connections: 0,
        unknown_status_connections: 0,
        idle_connections: 0,
        host_count: 0,
    };
    let mut h: usize = 0;
    while h < hosts.len()
        invariant
            h <= hosts@.len(),
            total_len(hosts@) <= usize::MAX,
            ({
                let s = hosts_stats(hosts@.take(h as int), max_idle_ms, now);
                &&& stats.total_connections == s.0
                &&& stats.healthy_connections == s.1
                &&& stats.unhealthy_connections == s.2
                &&& stats.unknown_status_connections == s.3
                &&& stats.idle_connections == s.4
            }),
            stats.total_connections == total_len(hosts@.take(h as int)),
            stats.host_count == 0,
        decreases hosts@.len() - h,
    {
        proof {
            assert(hosts@.take(h + 1).drop_last() =~= hosts@.take(h as int));
            assert(hosts@.take(h + 1).last() == hosts@[h as int]);
            lemma_hosts_counts_bounded(hosts@.take(h as int), max_idle_ms, now);
            lemma_total_len_prefix(hosts@, h + 1);
        }
        add_host(&mut stats, &hosts[h], max_idle_ms, now);
        h = h + 1;
    }
    assert(hosts@.take(h as int) =~= hosts@);
    stats.host_count = hosts.len();
    stats
}

/// A prefix of the hosts holds no more connections than all of them.
proof fn lemma_total_len_prefix<C>(hosts: Seq<Vec<PooledConnection<C>>>, n: int)
    requires
        0 <= n <= hosts.len(),
    ensures
        total_len(hosts.take(n)) <= total_len(hosts),
    decreases hosts.len() - n,
{
    if n < hosts.len() {
        lemma_total_len_prefix(hosts, n + 1);
        assert(hosts.take(n + 1).drop_last() =~= hosts.take(n));
    } else {
        assert(hosts.take(n) =~= hosts);
    }
}

} // verus!
