//! A generic connection pool: idle connections kept in arrival order,
//! a count of every open connection, a cap on that count, and requests that
//! wait for a returned connection when the cap is reached.
//!
//! Time is a millisecond clock that the caller reads and passes in.

use std::collections::VecDeque;
use std::sync::Arc;
use vstd::prelude::*;

verus! {

broadcast use vstd::std_specs::vecdeque::group_vec_dequeue_axioms;

/// Errors of the pool.
#[derive(Debug, Clone)]
pub enum PoolError {
    /// The pool was released.
    Closed,
    /// No connection became available for a waiting request.
    MaxActiveConnReached,
    /// The connection handed back was missing.
    NilConnection,
    /// Creating a connection failed.
    CreateConnection(String),
    /// Closing a connection failed.
    CloseConnection(String),
    /// Checking a connection failed.
    PingConnection(String),
}

/// The result type of the pool.
pub type Result<T> = std::result::Result<T, PoolError>;

/// A connection taken from the pool, with the time it was created.
#[derive(Clone)]
pub struct PooledConn<T> {
    pub conn: Arc<T>,
    pub created_time: u64,
}

/// Settings of a pool; times in milliseconds, zero meaning no limit.
#[derive(Debug, Clone, Copy)]
pub struct PoolConfig {
    /// Connections created up front.
    pub initial_cap: usize,
    /// Open connections above which requests wait.
    pub max_cap: usize,
    /// Idle connections kept at most.
    pub max_idle: usize,
    /// How long a connection may stay idle.
    pub idle_timeout_ms: u64,
    /// How long a connection may live.
    pub max_lifetime_ms: u64,
}

impl Default for PoolConfig {
    fn default() -> (r: PoolConfig)
        ensures
            r.initial_cap == 5,
            r.max_cap == 20,
            r.max_idle == 10,
            r.idle_timeout_ms == 30_000,
            r.max_lifetime_ms == 300_000,
    {
        PoolConfig {
            initial_cap: 5,
            max_cap: 20,
            max_idle: 10,
            idle_timeout_ms: 30_000,
            max_lifetime_ms: 300_000,
        }
    }
}

/// An idle connection with the time it became idle and the time it was
/// created.
pub struct IdleConn<T> {
    pub conn: Arc<T>,
    pub idle_time: u64,
    pub created_time: u64,
}

/// What a hook that closes or checks a connection answers.
pub type HookResult = std::result::Result<(), String>;

/// How the pool creates, closes and, optionally, checks the connections it
/// manages. The pool states what it hands to each hook and what it does
/// with each answer, whatever the hooks answer.
pub struct PoolHooks<F, C, P> {
    /// Creates a connection.
    pub create: F,
    /// Closes a connection.
    pub close: C,
    /// Checks a connection before it is reused; no check when `None`.
    pub ping: Option<P>,
}

/// The hooks accept every call the pool makes.
pub open spec fn hooks_callable<T, F, C, P>(h: &PoolHooks<F, C, P>) -> bool where
    F: Fn() -> Result<T>,
    C: Fn(&Arc<T>) -> HookResult,
    P: Fn(&Arc<T>) -> HookResult,
 {
    &&& call_requires(h.create, ())
    &&& forall|c: &Arc<T>| #[trigger] call_requires(h.close, (c,))
    &&& match h.ping {
        Some(p) => forall|c: &Arc<T>| #[trigger] call_requires(p, (c,)),
        None => true,
    }
}

/// `create` was called and gave `t`.
pub open spec fn created<T, F, C, P>(h: &PoolHooks<F, C, P>, t: T) -> bool where
    F: Fn() -> Result<T>,
    C: Fn(&Arc<T>) -> HookResult,
    P: Fn(&Arc<T>) -> HookResult,
 {
    call_ensures(h.create, (), Ok(t))
}

/// `close` was called on `c`, whatever it answered.
pub open spec fn was_closed<T, F, C, P>(h: &PoolHooks<F, C, P>, c: Arc<T>) -> bool where
    F: Fn() -> Result<T>,
    C: Fn(&Arc<T>) -> HookResult,
    P: Fn(&Arc<T>) -> HookResult,
 {
    exists|o: HookResult| #[trigger] call_ensures(h.close, (&c,), o)
}

/// `close` was called on `c` and succeeded.
pub open spec fn closed_ok<T, F, C, P>(h: &PoolHooks<F, C, P>, c: Arc<T>) -> bool where
    F: Fn() -> Result<T>,
    C: Fn(&Arc<T>) -> HookResult,
    P: Fn(&Arc<T>) -> HookResult,
 {
    call_ensures(h.close, (&c,), Ok::<(), String>(()))
}

/// `close` was called on `c` and failed with `m`.
pub open spec fn close_failed<T, F, C, P>(h: &PoolHooks<F, C, P>, c: Arc<T>, m: String) -> bool where
    F: Fn() -> Result<T>,
    C: Fn(&Arc<T>) -> HookResult,
    P: Fn(&Arc<T>) -> HookResult,
 {
    call_ensures(h.close, (&c,), Err::<(), String>(m))
}

/// The check hook was called on `c` and rejected it.
pub open spec fn rejected<T, F, C, P>(h: &PoolHooks<F, C, P>, c: Arc<T>) -> bool where
    F: Fn() -> Result<T>,
    C: Fn(&Arc<T>) -> HookResult,
    P: Fn(&Arc<T>) -> HookResult,
 {
    match h.ping {
        Some(p) => exists|m: String| #[trigger] call_ensures(p, (&c,), Err::<(), String>(m)),
        None => false,
    }
}

/// There is no check hook, or it was called on `c` and accepted it.
pub open spec fn accepted<T, F, C, P>(h: &PoolHooks<F, C, P>, c: Arc<T>) -> bool where
    F: Fn() -> Result<T>,
    C: Fn(&Arc<T>) -> HookResult,
    P: Fn(&Arc<T>) -> HookResult,
 {
    match h.ping {
        Some(p) => call_ensures(p, (&c,), Ok::<(), String>(())),
        None => true,
    }
}

/// Whether a checked connection is reused: it is not stale, and the check,
/// if there is one, accepted it.
pub fn reuse_verdict(stale: bool, answer: Option<HookResult>) -> (r: bool)
    ensures
        r == (!stale && !(answer matches Some(Err(_)))),
{
    if stale {
        return false;
    }
    match answer {
        Some(Err(_)) => false,
        _ => true,
    }
}

/// Time elapsed from `since` to `now`, zero if `now` is earlier.
pub open spec fn elapsed(now: u64, since: u64) -> int {
    if now >= since {
        now - since
    } else {
        0
    }
}

/// Whether more than `limit` elapsed since `since`, a zero limit never expiring.
pub open spec fn expired(now: u64, since: u64, limit: u64) -> bool {
    limit > 0 && elapsed(now, since) > limit
}

/// The entries of `idle` that are not idle for longer than `limit`, in order.
pub open spec fn still_fresh<T>(idle: Seq<IdleConn<T>>, now: u64, limit: u64) -> Seq<IdleConn<T>>
    decreases idle.len(),
{
    if idle.len() == 0 {
        Seq::empty()
    } else if expired(now, idle[0].idle_time, limit) {
        still_fresh(idle.drop_first(), now, limit)
    } else {
        seq![idle[0]] + still_fresh(idle.drop_first(), now, limit)
    }
}

/// `still_fresh` keeps at most what it is given.
pub proof fn lemma_still_fresh_len<T>(idle: Seq<IdleConn<T>>, now: u64, limit: u64)
    ensures
        still_fresh(idle, now, limit).len() <= idle.len(),
    decreases idle.len(),
{
    if idle.len() > 0 {
        lemma_still_fresh_len(idle.drop_first(), now, limit);
    }
}

/// `still_fresh` keeps everything when nothing has expired.
pub proof fn lemma_still_fresh_all_fresh<T>(idle: Seq<IdleConn<T>>, now: u64, limit: u64)
    requires
        forall|k: int| 0 <= k < idle.len() ==> !expired(now, #[trigger] idle[k].idle_time, limit),
    ensures
        still_fresh(idle, now, limit) == idle,
    decreases idle.len(),
{
    if idle.len() > 0 {
        assert forall|k: int| 0 <= k < idle.drop_first().len() implies !expired(
            now,
            #[trigger] idle.drop_first()[k].idle_time,
            limit,
        ) by {
            assert(idle.drop_first()[k] == idle[k + 1]);
        }
        lemma_still_fresh_all_fresh(idle.drop_first(), now, limit);
        assert(!expired(now, idle[0].idle_time, limit));
        assert(seq![idle[0]] + idle.drop_first() =~= idle);
    }
}

/// What getting a connection gives.
pub enum Acquire<T> {
    /// A connection to use.
    Got(PooledConn<T>),
    /// The pool is at its cap: the request was queued and waits for a
    /// returned connection.
    Wait,
}

/// What returning a connection does with it.
pub enum Returned<T, W> {
    /// It was kept as idle.
    Kept,
    /// It was dropped or closed and is no longer counted.
    Dropped,
    /// It goes to this waiting request; if that request is gone, the caller
    /// hands it to `discard`.
    HandOver(W, PooledConn<T>),
}

/// A connection pool over connections of type `T`, with waiting requests of
/// type `W`.
pub struct Pool<T, W> {
    idle: VecDeque<IdleConn<T>>,
    config: PoolConfig,
    opening: usize,
    closed: bool,
    waiters: Vec<W>,
}

/// The most connections the pool ever counts as open.
pub open spec fn open_bound(config: PoolConfig) -> int {
    if config.initial_cap > config.max_cap {
        config.initial_cap as int
    } else {
        config.max_cap as int
    }
}

impl<T, W> Pool<T, W> {
    /// The idle connections, oldest first.
    pub closed spec fn idle_conns(self) -> Seq<IdleConn<T>> {
        self.idle@
    }

    /// The settings.
    pub closed spec fn settings(self) -> PoolConfig {
        self.config
    }

    /// How many connections are counted as open, idle or in use.
    pub closed spec fn open_count(self) -> nat {
        self.opening as nat
    }

    /// Whether the pool was released.
    pub closed spec fn is_closed(self) -> bool {
        self.closed
    }

    /// The waiting requests, oldest first.
    pub closed spec fn waiting(self) -> Seq<W> {
        self.waiters@
    }

    /// The pool's accounting holds: every idle connection is counted as
    /// open, and no more connections are open than the cap allows.
    pub open spec fn wf(self) -> bool {
        &&& self.idle_conns().len() <= self.open_count()
        &&& self.open_count() <= open_bound(self.settings())
    }

    /// Whether a connection is stale when taken from the idle queue: idle
    /// too long or alive too long.
    pub open spec fn stale(self, e: IdleConn<T>, now: u64) -> bool {
        expired(now, e.idle_time, self.settings().idle_timeout_ms) || expired(
            now,
            e.created_time,
            self.settings().max_lifetime_ms,
        )
    }

    fn elapsed_since(now: u64, since: u64) -> (r: u64)
        ensures
            r == elapsed(now, since),
    {
        if now >= since {
            now - since
        } else {
            0
        }
    }

    fn is_expired(now: u64, since: u64, limit: u64) -> (r: bool)
        ensures
            r == expired(now, since, limit),
    {
        limit > 0 && Self::elapsed_since(now, since) > limit
    }

    /// An idle connection `get` passed over: stale, or rejected by the check
    /// hook, and handed to the close hook.
    pub open spec fn skipped<F, C, P>(
        self,
        hooks: &PoolHooks<F, C, P>,
        e: IdleConn<T>,
        now: u64,
    ) -> bool where
        F: Fn() -> Result<T>,
        C: Fn(&Arc<T>) -> HookResult,
        P: Fn(&Arc<T>) -> HookResult,
     {
        &&& self.stale(e, now) || rejected(hooks, e.conn)
        &&& was_closed(hooks, e.conn)
    }

    /// `after` follows `before` by reusing the idle connection at `d` as
    /// `c`, the `d` before it being forgotten.
    pub open spec fn reused_idle(before: Self, after: Self, c: PooledConn<T>, d: int) -> bool {
        &&& 0 <= d < before.idle_conns().len()
        &&& after.idle_conns() == before.idle_conns().skip(d + 1)
        &&& after.open_count() == before.open_count() - d
        &&& c.conn == before.idle_conns()[d].conn
        &&& c.created_time == before.idle_conns()[d].created_time
        &&& after.waiting() == before.waiting()
        &&& after.settings() == before.settings()
        &&& after.is_closed() == before.is_closed()
    }

    /// `after` follows `before` by keeping `c` idle from `now` on, at the
    /// back of the queue.
    pub open spec fn kept_idle(before: Self, after: Self, c: PooledConn<T>, now: u64) -> bool {
        &&& after.idle_conns() == before.idle_conns().push(
            IdleConn { conn: c.conn, idle_time: now, created_time: c.created_time },
        )
        &&& after.open_count() == before.open_count()
        &&& after.waiting() == before.waiting()
        &&& after.settings() == before.settings()
        &&& after.is_closed() == before.is_closed()
    }

    /// A pool with `initial_cap` connections created up front, all idle
    /// since `now`; the first failure to create one fails the whole pool
    /// with that error.
    pub fn new<F, C, P>(config: PoolConfig, hooks: &PoolHooks<F, C, P>, now: u64) -> (r: Result<
        Self,
    >) where
        F: Fn() -> Result<T>,
        C: Fn(&Arc<T>) -> HookResult,
        P: Fn(&Arc<T>) -> HookResult,

        requires
            hooks_callable(hooks),
        ensures
            config.initial_cap == 0 ==> r is Ok,
            r matches Ok(p) ==> {
                &&& p.wf()
                &&& p.settings() == config
                &&& p.open_count() == config.initial_cap
                &&& p.idle_conns().len() == config.initial_cap
                &&& forall|i: int|
                    0 <= i < p.idle_conns().len() ==> #[trigger] p.idle_conns()[i].idle_time == now
                        && p.idle_conns()[i].created_time == now && created(
                        hooks,
                        *p.idle_conns()[i].conn,
                    )
                &&& !p.is_closed()
                &&& p.waiting().len() == 0
            },
            r matches Err(e) ==> call_ensures(hooks.create, (), Err::<T, PoolError>(e)),
    {
        let mut pool = Pool {
            idle: VecDeque::new(),
            config,
            opening: 0,
            closed: false,
            waiters: Vec::new(),
        };
        let mut i: usize = 0;
        while i < config.initial_cap
            invariant
                hooks_callable(hooks),
                i <= config.initial_cap,
                pool.config == config,
                pool.opening == i,
                pool.idle@.len() == i,
                forall|k: int|
                    0 <= k < pool.idle@.len() ==> #[trigger] pool.idle@[k].idle_time == now
                        && pool.idle@[k].created_time == now && created(hooks, *pool.idle@[k].conn),
                !pool.closed,
                pool.waiters@.len() == 0,
            decreases config.initial_cap - i,
        {
            let made = (hooks.create)();
            match made {
                Ok(conn) => {
                    let ghost t = conn;
                    let arc = Arc::new(conn);
                    assert(*arc == t);
                    pool.idle.push_back(IdleConn { conn: arc, idle_time: now, created_time: now });
                },
                Err(e) => {
                    return Err(e);
                },
            }
            pool.opening = pool.opening + 1;
            i = i + 1;
        }
        Ok(pool)
    }

    /// Closes and forgets the idle connections idle for longer than the idle
    /// timeout, each handed to the close hook. A failure to close one stops
    /// the cleanup with that error; the connections removed before it are
    /// then still counted.
    pub fn clean_idle_conns<F, C, P>(&mut self, now: u64, hooks: &PoolHooks<F, C, P>) -> (r: Result<
        (),
    >) where
        F: Fn() -> Result<T>,
        C: Fn(&Arc<T>) -> HookResult,
        P: Fn(&Arc<T>) -> HookResult,

        requires
            old(self).wf(),
            hooks_callable(hooks),
        ensures
            final(self).wf(),
            final(self).settings() == old(self).settings(),
            final(self).is_closed() == old(self).is_closed(),
            final(self).waiting() == old(self).waiting(),
            old(self).is_closed() ==> (r is Ok && *final(self) == *old(self)),
            !old(self).is_closed() && r is Ok ==> {
                let kept = still_fresh(
                    old(self).idle_conns(),
                    now,
                    old(self).settings().idle_timeout_ms,
                );
                &&& final(self).idle_conns() == kept
                &&& final(self).open_count() == old(self).open_count() - (old(
                    self,
                ).idle_conns().len() - kept.len())
                &&& forall|k: int|
                    0 <= k < old(self).idle_conns().len() && expired(
                        now,
                        #[trigger] old(self).idle_conns()[k].idle_time,
                        old(self).settings().idle_timeout_ms,
                    ) ==> closed_ok(hooks, old(self).idle_conns()[k].conn)
            },
            !old(self).is_closed() && (forall|k: int|
                0 <= k < old(self).idle_conns().len() ==> !expired(
                    now,
                    #[trigger] old(self).idle_conns()[k].idle_time,
                    old(self).settings().idle_timeout_ms,
                )) ==> {
                &&& r is Ok
                &&& final(self).idle_conns() == old(self).idle_conns()
                &&& final(self).open_count() == old(self).open_count()
            },
            r matches Err(e) ==> {
                &&& final(self).open_count() == old(self).open_count()
                &&& final(self).idle_conns().len() <= old(self).idle_conns().len()
                &&& exists|k: int|
                    0 <= k < old(self).idle_conns().len() && expired(
                        now,
                        #[trigger] old(self).idle_conns()[k].idle_time,
                        old(self).settings().idle_timeout_ms,
                    ) && (e matches PoolError::CloseConnection(m) && close_failed(
                        hooks,
                        old(self).idle_conns()[k].conn,
                        m,
                    ))
            },
    {
        if self.closed {
            return Ok(());
        }
        let ghost start = self.idle@;
        let limit = self.config.idle_timeout_ms;
        let mut removed: usize = 0;
        let mut i: usize = self.idle.len();
        proof {
            assert(start.skip(i as int) =~= Seq::<IdleConn<T>>::empty());
            assert(start.take(i as int) =~= start);
        }
        while i > 0
            invariant
                hooks_callable(hooks),
                i <= start.len(),
                limit == self.config.idle_timeout_ms,
                self.idle@ == start.take(i as int) + still_fresh(start.skip(i as int), now, limit),
                removed + still_fresh(start.skip(i as int), now, limit).len() == start.len() - i,
                start.len() <= self.opening,
                self.opening <= open_bound(self.config),
                !self.closed,
                self.closed == old(self).closed,
                self.waiters == old(self).waiters,
                self.config == old(self).config,
                self.opening == old(self).opening,
                start == old(self).idle@,
                forall|k: int|
                    i <= k < start.len() && expired(now, #[trigger] start[k].idle_time, limit)
                        ==> closed_ok(hooks, start[k].conn),
            decreases i,
        {
            let idx = i - 1;
            proof {
                assert(start.skip(idx as int) =~= seq![start[idx as int]] + start.skip(i as int));
                assert(start.skip(idx as int).drop_first() =~= start.skip(i as int));
                lemma_still_fresh_len(start.skip(i as int), now, limit);
                assert(self.idle@[idx as int] == start[idx as int]);
            }
            let stale = Self::is_expired(now, self.idle[idx].idle_time, limit);
            if stale {
                let closing = (hooks.close)(&self.idle[idx].conn);
                match closing {
                    Ok(u) => {
                        assert(closing == Ok::<(), String>(()));
                    },
                    Err(e) => {
                        proof {
                            lemma_still_fresh_len(start.skip(i as int), now, limit);
                            assert(close_failed(hooks, start[idx as int].conn, e));
                            assert(old(self).idle_conns()[idx as int] == start[idx as int]);
                            assert(expired(now, old(self).idle_conns()[idx as int].idle_time, limit));
                        }
                        return Err(PoolError::CloseConnection(e));
                    },
                }
                self.idle.remove(idx);
                removed = removed + 1;
                proof {
                    assert(self.idle@ =~= start.take(idx as int) + still_fresh(
                        start.skip(idx as int),
                        now,
                        limit,
                    ));
                }
            } else {
                proof {
                    assert(start.take(i as int) =~= start.take(idx as int) + seq![start[idx as int]]);
                    assert(self.idle@ =~= start.take(idx as int) + still_fresh(
                        start.skip(idx as int),
                        now,
                        limit,
                    ));
                }
            }
            i = idx;
        }
        proof {
            assert(start.take(0) =~= Seq::<IdleConn<T>>::empty());
            assert(start.skip(0) =~= start);
            assert(self.idle@ =~= still_fresh(start, now, limit));
            if forall|k: int| 0 <= k < start.len() ==> !expired(now, #[trigger] start[k].idle_time, limit) {
                lemma_still_fresh_all_fresh(start, now, limit);
            }
        }
        self.opening = self.opening - removed;
        Ok(())
    }

    /// Gets a connection: the oldest idle one that is neither stale nor
    /// rejected by the check hook, the stale and rejected ones before it
    /// being handed to the close hook and forgotten; with no idle one left,
    /// a new one from the create hook if the pool is below its cap, else the
    /// request `waiter` is queued.
    pub fn get<F, C, P>(&mut self, now: u64, hooks: &PoolHooks<F, C, P>, waiter: W) -> (r: Result<
        Acquire<T>,
    >) where
        F: Fn() -> Result<T>,
        C: Fn(&Arc<T>) -> HookResult,
        P: Fn(&Arc<T>) -> HookResult,

        requires
            old(self).wf(),
            hooks_callable(hooks),
        ensures
            final(self).wf(),
            final(self).settings() == old(self).settings(),
            final(self).is_closed() == old(self).is_closed(),
            old(self).is_closed() ==> ((r matches Err(PoolError::Closed)) && *final(self) == *old(
                self,
            )),
            !old(self).is_closed() ==> exists|d: int|
                #![trigger old(self).idle_conns().skip(d)]
                0 <= d <= old(self).idle_conns().len() && (forall|k: int|
                    0 <= k < d ==> old(self).skipped(hooks, #[trigger] old(self).idle_conns()[k], now))
                    && ({
                    let idle = old(self).idle_conns();
                    let left = (old(self).open_count() - d) as int;
                    match r {
                        Ok(Acquire::Got(c)) => if d < idle.len() {
                            &&& Self::reused_idle(*old(self), *final(self), c, d)
                            &&& !old(self).stale(idle[d], now)
                            &&& !expired(now, c.created_time, old(self).settings().max_lifetime_ms)
                            &&& !expired(now, idle[d].idle_time, old(self).settings().idle_timeout_ms)
                            &&& accepted(hooks, idle[d].conn)
                        } else {
                            &&& final(self).idle_conns().len() == 0
                            &&& left < old(self).settings().max_cap
                            &&& final(self).open_count() == left + 1
                            &&& c.created_time == now
                            &&& created(hooks, *c.conn)
                            &&& final(self).waiting() == old(self).waiting()
                        },
                        Ok(Acquire::Wait) => {
                            &&& d == idle.len()
                            &&& final(self).idle_conns().len() == 0
                            &&& left >= old(self).settings().max_cap
                            &&& final(self).open_count() == left
                            &&& final(self).waiting() == old(self).waiting().push(waiter)
                        },
                        Err(e) => {
                            &&& d == idle.len()
                            &&& final(self).idle_conns().len() == 0
                            &&& left < old(self).settings().max_cap
                            &&& final(self).open_count() == left
                            &&& final(self).waiting() == old(self).waiting()
                            &&& call_ensures(hooks.create, (), Err::<T, PoolError>(e))
                        },
                    }
                }),
    {
        if self.closed {
            return Err(PoolError::Closed);
        }
        let (taken, Ghost(d)) = self.take_usable(now, hooks);
        assert(old(self).idle_conns().skip(d) == old(self).idle_conns().skip(d));
        match taken {
            Some(idle_conn) => {
                Ok(Acquire::Got(PooledConn { conn: idle_conn.conn, created_time: idle_conn.created_time }))
            },
            None => {
                if self.opening >= self.config.max_cap {
                    self.waiters.push(waiter);
                    return Ok(Acquire::Wait);
                }
                let made = (hooks.create)();
                match made {
                    Ok(conn) => {
                        let ghost t = conn;
                        let arc = Arc::new(conn);
                        assert(*arc == t);
                        self.opening = self.opening + 1;
                        Ok(Acquire::Got(PooledConn { conn: arc, created_time: now }))
                    },
                    Err(e) => Err(e),
                }
            },
        }
    }

    /// Takes the oldest idle connection that is neither stale nor rejected by
    /// the check hook, handing the ones before it to the close hook; gives
    /// how many were passed over.
    fn take_usable<F, C, P>(&mut self, now: u64, hooks: &PoolHooks<F, C, P>) -> (r: (
        Option<IdleConn<T>>,
        Ghost<int>,
    )) where
        F: Fn() -> Result<T>,
        C: Fn(&Arc<T>) -> HookResult,
        P: Fn(&Arc<T>) -> HookResult,

        requires
            old(self).wf(),
            !old(self).is_closed(),
            hooks_callable(hooks),
        ensures
            final(self).wf(),
            0 <= r.1@ <= old(self).idle_conns().len(),
            final(self).open_count() == old(self).open_count() - r.1@,
            final(self).settings() == old(self).settings(),
            final(self).is_closed() == old(self).is_closed(),
            final(self).waiting() == old(self).waiting(),
            forall|k: int|
                0 <= k < r.1@ ==> old(self).skipped(hooks, #[trigger] old(self).idle_conns()[k], now),
            match r.0 {
                Some(e) => {
                    &&& r.1@ < old(self).idle_conns().len()
                    &&& e == old(self).idle_conns()[r.1@]
                    &&& final(self).idle_conns() == old(self).idle_conns().skip(r.1@ + 1)
                    &&& !old(self).stale(e, now)
                    &&& accepted(hooks, e.conn)
                },
                None => r.1@ == old(self).idle_conns().len() && final(self).idle_conns().len() == 0,
            },
    {
        let ghost start = self.idle@;
        let ghost opening0 = self.opening as int;
        let ghost mut d: int = 0;
        while self.idle.len() > 0
            invariant
                hooks_callable(hooks),
                0 <= d <= start.len(),
                self.idle@ == start.skip(d),
                self.opening == opening0 - d,
                start.len() <= opening0,
                opening0 <= open_bound(self.config),
                self.closed == old(self).closed,
                self.waiters == old(self).waiters,
                self.config == old(self).config,
                start == old(self).idle@,
                opening0 == old(self).opening,
                forall|k: int| 0 <= k < d ==> old(self).skipped(hooks, #[trigger] start[k], now),
            decreases start.len() - d,
        {
            let idle_conn = self.idle.pop_front().unwrap();
            proof {
                assert(idle_conn == start[d]);
                assert(self.idle@ =~= start.skip(d + 1));
            }
            let stale = Self::is_expired(now, idle_conn.idle_time, self.config.idle_timeout_ms)
                || Self::is_expired(now, idle_conn.created_time, self.config.max_lifetime_ms);
            let answer: Option<HookResult> = if stale {
                None
            } else {
                match &hooks.ping {
                    Some(p) => Some(p(&idle_conn.conn)),
                    None => None,
                }
            };
            let ghost ans = answer;
            let reuse = reuse_verdict(stale, answer);
            if reuse {
                proof {
                    if let Some(a) = ans {
                        assert(a is Ok);
                        assert(a->Ok_0 == ());
                        assert(a == Ok::<(), String>(()));
                    }
                    assert(accepted(hooks, idle_conn.conn));
                }
                return (Some(idle_conn), Ghost(d));
            }
            proof {
                if !stale {
                    let m = ans->0->Err_0;
                    assert(call_ensures(hooks.ping->0, (&idle_conn.conn,), Err::<(), String>(m)));
                    assert(rejected(hooks, idle_conn.conn));
                }
            }
            let closing = (hooks.close)(&idle_conn.conn);
            proof {
                assert(was_closed(hooks, idle_conn.conn));
            }
            self.opening = self.opening - 1;
            proof {
                d = d + 1;
            }
        }
        (None, Ghost(d))
    }

    /// Returns a connection taken from this pool. A released pool drops it;
    /// one alive too long is handed to the close hook and forgotten; else it
    /// goes to the most recent waiting request, or is kept idle if there is
    /// room, or is handed to the close hook, a failure to close being
    /// reported.
    pub fn put<F, C, P>(&mut self, pooled: PooledConn<T>, now: u64, hooks: &PoolHooks<F, C, P>) -> (r:
        Result<Returned<T, W>>) where
        F: Fn() -> Result<T>,
        C: Fn(&Arc<T>) -> HookResult,
        P: Fn(&Arc<T>) -> HookResult,

        requires
            old(self).wf(),
            old(self).is_closed() || old(self).idle_conns().len() < old(self).open_count(),
            hooks_callable(hooks),
        ensures
            final(self).wf(),
            final(self).settings() == old(self).settings(),
            final(self).is_closed() == old(self).is_closed(),
            old(self).is_closed() ==> ((r matches Ok(Returned::Dropped)) && *final(self) == *old(
                self,
            )),
            !old(self).is_closed() && expired(
                now,
                pooled.created_time,
                old(self).settings().max_lifetime_ms,
            ) ==> {
                &&& r matches Ok(Returned::Dropped)
                &&& was_closed(hooks, pooled.conn)
                &&& final(self).open_count() == old(self).open_count() - 1
                &&& final(self).idle_conns() == old(self).idle_conns()
                &&& final(self).waiting() == old(self).waiting()
            },
            !old(self).is_closed() && !expired(
                now,
                pooled.created_time,
                old(self).settings().max_lifetime_ms,
            ) && old(self).waiting().len() > 0 ==> {
                &&& (r matches Ok(Returned::HandOver(w, c)) && w == old(self).waiting().last()
                    && c == pooled)
                &&& final(self).waiting() == old(self).waiting().drop_last()
                &&& final(self).open_count() == old(self).open_count()
                &&& final(self).idle_conns() == old(self).idle_conns()
            },
            !old(self).is_closed() && !expired(
                now,
                pooled.created_time,
                old(self).settings().max_lifetime_ms,
            ) && old(self).waiting().len() == 0 && old(self).idle_conns().len() < old(
                self,
            ).settings().max_idle ==> {
                &&& r matches Ok(Returned::Kept)
                &&& Self::kept_idle(*old(self), *final(self), pooled, now)
            },
            !old(self).is_closed() && !expired(
                now,
                pooled.created_time,
                old(self).settings().max_lifetime_ms,
            ) && old(self).waiting().len() == 0 && old(self).idle_conns().len() >= old(
                self,
            ).settings().max_idle ==> {
                &&& final(self).idle_conns() == old(self).idle_conns()
                &&& final(self).waiting() == old(self).waiting()
                &&& (r matches Ok(Returned::Dropped)) ==> final(self).open_count() == old(
                    self,
                ).open_count() - 1 && closed_ok(hooks, pooled.conn)
                &&& r matches Err(e) ==> (e matches PoolError::CloseConnection(m) && close_failed(
                    hooks,
                    pooled.conn,
                    m,
                ) && final(self).open_count() == old(self).open_count())
                &&& (r matches Ok(Returned::Dropped)) || (r is Err)
            },
    {
        if self.closed {
            return Ok(Returned::Dropped);
        }
        if Self::is_expired(now, pooled.created_time, self.config.max_lifetime_ms) {
            let closing = (hooks.close)(&pooled.conn);
            proof {
                assert(was_closed(hooks, pooled.conn));
            }
            self.opening = self.opening - 1;
            return Ok(Returned::Dropped);
        }
        match self.waiters.pop() {
            Some(w) => {
                return Ok(Returned::HandOver(w, pooled));
            },
            None => {},
        }
        if self.idle.len() < self.config.max_idle {
            self.idle.push_back(
                IdleConn { conn: pooled.conn, idle_time: now, created_time: pooled.created_time },
            );
            return Ok(Returned::Kept);
        }
        let closing = (hooks.close)(&pooled.conn);
        match closing {
            Ok(u) => {
                assert(closing == Ok::<(), String>(()));
                self.opening = self.opening - 1;
                Ok(Returned::Dropped)
            },
            Err(e) => Err(PoolError::CloseConnection(e)),
        }
    }

    /// Hands to the close hook and forgets a connection that was given to a
    /// waiting request that was gone; a failure to close it is ignored.
    pub fn discard<F, C, P>(&mut self, pooled: PooledConn<T>, hooks: &PoolHooks<F, C, P>) where
        F: Fn() -> Result<T>,
        C: Fn(&Arc<T>) -> HookResult,
        P: Fn(&Arc<T>) -> HookResult,

        requires
            old(self).wf(),
            old(self).idle_conns().len() < old(self).open_count(),
            hooks_callable(hooks),
        ensures
            final(self).wf(),
            was_closed(hooks, pooled.conn),
            final(self).open_count() == old(self).open_count() - 1,
            final(self).idle_conns() == old(self).idle_conns(),
            final(self).waiting() == old(self).waiting(),
            final(self).settings() == old(self).settings(),
            final(self).is_closed() == old(self).is_closed(),
    {
        let closing = (hooks.close)(&pooled.conn);
        proof {
            assert(was_closed(hooks, pooled.conn));
        }
        self.opening = self.opening - 1;
    }

    /// Releases the pool: it is closed for good, its idle connections are
    /// handed to the close hook oldest first, the waiting requests are
    /// handed back to be told so, and nothing is counted as open any more.
    /// A failure to close a connection stops the release with that error.
    pub fn release<F, C, P>(&mut self, hooks: &PoolHooks<F, C, P>) -> (r: Result<Vec<W>>) where
        F: Fn() -> Result<T>,
        C: Fn(&Arc<T>) -> HookResult,
        P: Fn(&Arc<T>) -> HookResult,

        requires
            old(self).wf(),
            hooks_callable(hooks),
        ensures
            final(self).wf(),
            final(self).is_closed(),
            final(self).settings() == old(self).settings(),
            r matches Ok(waiting) ==> {
                &&& waiting@ == old(self).waiting()
                &&& final(self).waiting().len() == 0
                &&& final(self).idle_conns().len() == 0
                &&& final(self).open_count() == 0
                &&& forall|k: int|
                    0 <= k < old(self).idle_conns().len() ==> closed_ok(
                        hooks,
                        #[trigger] old(self).idle_conns()[k].conn,
                    )
            },
            r matches Err(e) ==> {
                &&& final(self).waiting() == old(self).waiting()
                &&& final(self).open_count() == old(self).open_count()
                &&& exists|k: int|
                    #![trigger old(self).idle_conns().skip(k + 1)]
                    0 <= k < old(self).idle_conns().len() && final(self).idle_conns() == old(
                        self,
                    ).idle_conns().skip(k + 1) && (forall|j: int|
                        0 <= j < k ==> closed_ok(hooks, #[trigger] old(self).idle_conns()[j].conn))
                        && (e matches PoolError::CloseConnection(m) && close_failed(
                        hooks,
                        old(self).idle_conns()[k].conn,
                        m,
                    ))
            },
    {
        self.closed = true;
        let ghost start = self.idle@;
        let ghost mut n: int = 0;
        while self.idle.len() > 0
            invariant
                hooks_callable(hooks),
                self.closed,
                self.config == old(self).config,
                self.opening == old(self).opening,
                self.waiters == old(self).waiters,
                start == old(self).idle@,
                0 <= n <= start.len(),
                self.idle@ == start.skip(n),
                old(self).idle@.len() <= old(self).opening,
                old(self).opening <= open_bound(old(self).config),
                forall|j: int| 0 <= j < n ==> closed_ok(hooks, #[trigger] start[j].conn),
            decreases start.len() - n,
        {
            let idle_conn = self.idle.pop_front().unwrap();
            proof {
                assert(idle_conn == start[n]);
                assert(self.idle@ =~= start.skip(n + 1));
            }
            let closing = (hooks.close)(&idle_conn.conn);
            match closing {
                Ok(u) => {
                    assert(closing == Ok::<(), String>(()));
                },
                Err(e) => {
                    proof {
                        assert(close_failed(hooks, start[n].conn, e));
                        assert(old(self).idle_conns().skip(n + 1) == self.idle@);
                    }
                    return Err(PoolError::CloseConnection(e));
                },
            }
            proof {
                n = n + 1;
            }
        }
        let mut waiting: Vec<W> = Vec::new();
        std::mem::swap(&mut waiting, &mut self.waiters);
        self.opening = 0;
        Ok(waiting)
    }

    /// How many connections are idle.
    pub fn idle_count(&self) -> (r: usize)
        ensures
            r == self.idle_conns().len(),
    {
        self.idle.len()
    }

    /// How many connections are counted as open, idle or in use.
    pub fn active_count(&self) -> (r: usize)
        ensures
            r == self.open_count(),
    {
        self.opening
    }

    /// Whether the pool was released.
    pub fn closed(&self) -> (r: bool)
        ensures
            r == self.is_closed(),
    {
        self.closed
    }
}

/// Returning the connection `get` reused from the front of the idle queue,
/// when `put` keeps it idle, restores what `get` found: as many idle and
/// open connections, the same waiting requests, and the returned connection
/// last in line with its creation time.
pub proof fn law_put_undoes_get<T, W>(
    p0: Pool<T, W>,
    p1: Pool<T, W>,
    p2: Pool<T, W>,
    c: PooledConn<T>,
    now: u64,
)
    requires
        Pool::reused_idle(p0, p1, c, 0),
        Pool::kept_idle(p1, p2, c, now),
    ensures
        p2.idle_conns().len() == p0.idle_conns().len(),
        p2.open_count() == p0.open_count(),
        p2.waiting() == p0.waiting(),
        p2.idle_conns().last().conn == p0.idle_conns()[0].conn,
        p2.idle_conns().last().created_time == p0.idle_conns()[0].created_time,
        p2.idle_conns().drop_last() == p0.idle_conns().drop_first(),
{
    assert(p0.idle_conns().skip(1) =~= p0.idle_conns().drop_first());
    assert(p2.idle_conns().drop_last() =~= p1.idle_conns());
}

/// Time elapsed is the difference of the two instants, or zero when `now`
/// is the earlier; a limit is passed only when it is nonzero and strictly
/// exceeded.
pub proof fn law_elapsed_and_expired(now: u64, since: u64, limit: u64)
    ensures
        now >= since ==> elapsed(now, since) == now - since,
        now < since ==> elapsed(now, since) == 0,
        expired(now, since, limit) <==> (limit > 0 && now >= since && now - since > limit),
{
}

/// An idle connection is stale, and never reused, exactly when it has been
/// idle longer than a nonzero idle timeout or has lived longer than a
/// nonzero maximum lifetime.
pub proof fn law_stale_means_too_idle_or_too_old<T, W>(p: Pool<T, W>, e: IdleConn<T>, now: u64)
    ensures
        p.stale(e, now) <==> ((p.settings().idle_timeout_ms > 0 && now >= e.idle_time && now
            - e.idle_time > p.settings().idle_timeout_ms) || (p.settings().max_lifetime_ms > 0
            && now >= e.created_time && now - e.created_time > p.settings().max_lifetime_ms)),
{
}

/// Cleaning keeps exactly the idle connections not idle longer than a
/// nonzero `limit`, in their order.
pub proof fn law_still_fresh_keeps_the_recent<T>(idle: Seq<IdleConn<T>>, now: u64, limit: u64)
    ensures
        still_fresh(idle, now, limit) == idle.filter(
            |e: IdleConn<T>| !(limit > 0 && now >= e.idle_time && now - e.idle_time > limit),
        ),
    decreases idle.len(),
{
    let pred = |e: IdleConn<T>| !(limit > 0 && now >= e.idle_time && now - e.idle_time > limit);
    reveal(Seq::filter);
    if idle.len() > 0 {
        law_still_fresh_keeps_the_recent(idle.drop_first(), now, limit);
        let head = seq![idle[0]];
        assert(head + idle.drop_first() =~= idle);
        Seq::filter_distributes_over_add(head, idle.drop_first(), pred);
        assert(head.drop_last() =~= Seq::<IdleConn<T>>::empty());
        assert(Seq::<IdleConn<T>>::empty().filter(pred) =~= Seq::<IdleConn<T>>::empty());
        if pred(idle[0]) {
            assert(head.filter(pred) =~= head);
        } else {
            assert(head.filter(pred) =~= Seq::<IdleConn<T>>::empty());
        }
        assert(still_fresh(idle, now, limit) =~= idle.filter(pred));
    } else {
        assert(idle.filter(pred) =~= idle);
    }
}

} // verus!
