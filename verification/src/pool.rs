//! Connection pool rules for the graph database: the health of a connection
//! after successes and failures, which connections are kept, reused or
//! dropped, how many must be opened, and the pool's statistics.
//!
//! Opening connections, running health-check queries and timing happen in the
//! application, which reports results and clock readings (milliseconds) here.
use vstd::prelude::*;

use crate::config::MemgraphPerformanceConfig;

verus! {

/// Connection pool errors
#[derive(Debug, Clone)]
pub enum PoolError {
    Exhausted,
    ConnectionFailed(String),
    HealthCheckFailed(String),
    PoolClosed,
}

/// The message of a pool error.
pub open spec fn pool_error_text(e: PoolError) -> Seq<char> {
    match e {
        PoolError::Exhausted => "Connection pool exhausted"@,
        PoolError::ConnectionFailed(m) => "Connection failed: "@ + m@,
        PoolError::HealthCheckFailed(m) => "Health check failed: "@ + m@,
        PoolError::PoolClosed => "Pool is closed"@,
    }
}

impl PoolError {
    /// The message of the error.
    pub fn message(&self) -> (s: String)
        ensures
            s@ == pool_error_text(*self),
    {
        match self {
            PoolError::Exhausted => String::from_str("Connection pool exhausted"),
            PoolError::ConnectionFailed(m) => String::from_str("Connection failed: ").concat(
                m.as_str(),
            ),
            PoolError::HealthCheckFailed(m) => String::from_str("Health check failed: ").concat(
                m.as_str(),
            ),
            PoolError::PoolClosed => String::from_str("Pool is closed"),
        }
    }
}

/// Health status of a connection
#[derive(Debug, Clone, Copy, PartialEq, Eq, Structural)]
pub enum ConnectionHealth {
    Healthy,
    Degraded,
    Failed,
}

/// Failures in a row after which a connection counts as failed.
pub const MAX_CONSECUTIVE_FAILURES: u32 = 3;

/// The health that a run of `failures` failed queries in a row gives:
/// healthy with none, degraded with up to `MAX_CONSECUTIVE_FAILURES`, failed
/// beyond.
pub open spec fn health_for_failures(failures: nat) -> ConnectionHealth {
    if failures == 0 {
        ConnectionHealth::Healthy
    } else if failures > MAX_CONSECUTIVE_FAILURES {
        ConnectionHealth::Failed
    } else {
        ConnectionHealth::Degraded
    }
}

/// The bookkeeping of one pooled connection, with times in milliseconds of
/// the application's clock.
#[derive(Debug, Clone, Copy, PartialEq, Eq, Structural)]
pub struct ConnectionTracker {
    pub created_at_ms: u64,
    pub last_used_ms: u64,
    pub health: ConnectionHealth,
    pub consecutive_failures: u32,
}

impl ConnectionTracker {
    /// A new, healthy connection opened at `now_ms`.
    pub fn new(now_ms: u64) -> (t: Self)
        ensures
            t.created_at_ms == now_ms,
            t.last_used_ms == now_ms,
            t.health == ConnectionHealth::Healthy,
            t.consecutive_failures == 0,
            t.health == health_for_failures(t.consecutive_failures as nat),
    {
        ConnectionTracker {
            created_at_ms: now_ms,
            last_used_ms: now_ms,
            health: ConnectionHealth::Healthy,
            consecutive_failures: 0,
        }
    }

    /// The connection was handed out at `now_ms`.
    pub fn mark_used(&mut self, now_ms: u64)
        ensures
            *final(self) == (ConnectionTracker { last_used_ms: now_ms, ..*old(self) }),
    {
        self.last_used_ms = now_ms;
    }

    /// A query failed: one more failure in a row; more than
    /// `MAX_CONSECUTIVE_FAILURES` make the connection failed, fewer degraded.
    pub fn mark_failure(&mut self)
        requires
            old(self).consecutive_failures < u32::MAX,
        ensures
            final(self).consecutive_failures == old(self).consecutive_failures + 1,
            final(self).health == if final(self).consecutive_failures > MAX_CONSECUTIVE_FAILURES {
                ConnectionHealth::Failed
            } else {
                ConnectionHealth::Degraded
            },
            final(self).created_at_ms == old(self).created_at_ms,
            final(self).last_used_ms == old(self).last_used_ms,
            final(self).health == health_for_failures(final(self).consecutive_failures as nat),
    {
        self.consecutive_failures = self.consecutive_failures + 1;
        self.health = if self.consecutive_failures > MAX_CONSECUTIVE_FAILURES {
            ConnectionHealth::Failed
        } else {
            ConnectionHealth::Degraded
        };
    }

    /// A query succeeded: the connection is healthy again.
    pub fn mark_success(&mut self)
        ensures
            final(self).consecutive_failures == 0,
            final(self).health == ConnectionHealth::Healthy,
            final(self).created_at_ms == old(self).created_at_ms,
            final(self).last_used_ms == old(self).last_used_ms,
            final(self).health == health_for_failures(final(self).consecutive_failures as nat),
    {
        self.consecutive_failures = 0;
        self.health = ConnectionHealth::Healthy;
    }

    /// The connection has lived longer than `max_age_ms` at `now_ms` (a clock
    /// reading before its creation counts as no time elapsed).
    pub fn is_expired(&self, now_ms: u64, max_age_ms: u64) -> (b: bool)
        ensures
            b == (now_ms > self.created_at_ms && now_ms - self.created_at_ms > max_age_ms),
    {
        now_ms > self.created_at_ms && now_ms - self.created_at_ms > max_age_ms
    }

    /// The connection has not been used for longer than `max_idle_ms`.
    pub fn is_idle(&self, now_ms: u64, max_idle_ms: u64) -> (b: bool)
        ensures
            b == (now_ms > self.last_used_ms && now_ms - self.last_used_ms > max_idle_ms),
    {
        now_ms > self.last_used_ms && now_ms - self.last_used_ms > max_idle_ms
    }
}

#[derive(Debug, Clone, Copy, PartialEq, Eq, Structural)]
pub struct ConnectionPoolConfig {
    pub min_connections: u32,
    pub max_connections: u32,
    pub connection_timeout_ms: u64,
    pub query_timeout_ms: u64,
    pub max_connection_age_ms: u64,
    pub max_idle_time_ms: u64,
    pub health_check_interval_ms: u64,
}

impl Default for ConnectionPoolConfig {
    fn default() -> (c: Self)
        ensures
            c == (ConnectionPoolConfig {
                min_connections: 2,
                max_connections: 10,
                connection_timeout_ms: 5000,
                query_timeout_ms: 30000,
                max_connection_age_ms: 3_600_000,
                max_idle_time_ms: 300_000,
                health_check_interval_ms: 30_000,
            }),
    {
        ConnectionPoolConfig {
            min_connections: 2,
            max_connections: 10,
            connection_timeout_ms: 5000,
            query_timeout_ms: 30000,
            max_connection_age_ms: 3_600_000,
            max_idle_time_ms: 300_000,
            health_check_interval_ms: 30_000,
        }
    }
}

/// The pool settings that the database performance settings give: at most the
/// configured pool size, at least two connections unless the pool is smaller,
/// the configured time limits, and an hour's age, five minutes' idleness and a
/// health check every thirty seconds.
pub open spec fn pool_config_from(p: MemgraphPerformanceConfig) -> ConnectionPoolConfig {
    ConnectionPoolConfig {
        min_connections: if p.connection_pool_size < 2 {
            p.connection_pool_size
        } else {
            2
        },
        max_connections: p.connection_pool_size,
        connection_timeout_ms: p.connection_timeout_ms,
        query_timeout_ms: p.query_timeout_ms,
        max_connection_age_ms: 3_600_000,
        max_idle_time_ms: 300_000,
        health_check_interval_ms: 30_000,
    }
}

impl<'a> From<&'a MemgraphPerformanceConfig> for ConnectionPoolConfig {
    fn from(perf_config: &'a MemgraphPerformanceConfig) -> (c: Self) {
        ConnectionPoolConfig {
            min_connections: if perf_config.connection_pool_size < 2 {
                perf_config.connection_pool_size
            } else {
                2
            },
            max_connections: perf_config.connection_pool_size,
            connection_timeout_ms: perf_config.connection_timeout_ms,
            query_timeout_ms: perf_config.query_timeout_ms,
            max_connection_age_ms: 3_600_000,
            max_idle_time_ms: 300_000,
            health_check_interval_ms: 30_000,
        }
    }
}

impl<'a> vstd::std_specs::convert::FromSpecImpl<&'a MemgraphPerformanceConfig> for ConnectionPoolConfig {
    open spec fn obeys_from_spec() -> bool {
        true
    }

    open spec fn from_spec(perf_config: &'a MemgraphPerformanceConfig) -> Self {
        pool_config_from(*perf_config)
    }
}

/// Statistics about the connection pool
#[derive(Debug, Clone, Copy, PartialEq, Eq, Structural)]
pub struct ConnectionPoolStats {
    pub total_connections: usize,
    pub healthy_connections: usize,
    pub degraded_connections: usize,
    pub failed_connections: usize,
    pub available_permits: usize,
    pub max_connections: u32,
}

/// Number of connections of `cs` with health `h`.
pub open spec fn health_count(cs: Seq<ConnectionTracker>, h: ConnectionHealth) -> int
    decreases cs.len(),
{
    if cs.len() == 0 {
        0
    } else {
        health_count(cs.drop_last(), h) + if cs.last().health == h {
            1int
        } else {
            0int
        }
    }
}

/// The statistics of a pool holding `connections`.
pub fn pool_stats(
    connections: &[ConnectionTracker],
    available_permits: usize,
    max_connections: u32,
) -> (st: ConnectionPoolStats)
    ensures
        st.total_connections == connections@.len(),
        st.healthy_connections == health_count(connections@, ConnectionHealth::Healthy),
        st.degraded_connections == health_count(connections@, ConnectionHealth::Degraded),
        st.failed_connections == health_count(connections@, ConnectionHealth::Failed),
        st.available_permits == available_permits,
        st.max_connections == max_connections,
{
    let mut healthy: usize = 0;
    let mut degraded: usize = 0;
    let mut failed: usize = 0;
    let mut i: usize = 0;
    while i < connections.len()
        invariant
            i <= connections@.len(),
            healthy == health_count(connections@.take(i as int), ConnectionHealth::Healthy),
            degraded == health_count(connections@.take(i as int), ConnectionHealth::Degraded),
            failed == health_count(connections@.take(i as int), ConnectionHealth::Failed),
            healthy + degraded + failed == i,
        decreases connections@.len() - i,
    {
        proof {
            assert(connections@.take(i + 1).drop_last() =~= connections@.take(i as int));
            assert(connections@.take(i + 1).last() == connections@[i as int]);
        }
        match connections[i].health {
            ConnectionHealth::Healthy => {
                healthy = healthy + 1;
            },
            ConnectionHealth::Degraded => {
                degraded = degraded + 1;
            },
            ConnectionHealth::Failed => {
                failed = failed + 1;
            },
        }
        i = i + 1;
    }
    assert(connections@.take(connections@.len() as int) =~= connections@);
    ConnectionPoolStats {
        total_connections: connections.len(),
        healthy_connections: healthy,
        degraded_connections: degraded,
        failed_connections: failed,
        available_permits,
        max_connections,
    }
}

/// The connection handed out next: the first healthy one.
pub fn pop_healthy_index(connections: &[ConnectionTracker]) -> (r: Option<usize>)
    ensures
        match r {
            Some(i) => i < connections@.len() && connections@[i as int].health
                == ConnectionHealth::Healthy && forall|j: int|
                0 <= j < i ==> #[trigger] connections@[j].health != ConnectionHealth::Healthy,
            None => forall|j: int|
                0 <= j < connections@.len() ==> #[trigger] connections@[j].health
                    != ConnectionHealth::Healthy,
        },
{
    let mut i: usize = 0;
    while i < connections.len()
        invariant
            i <= connections@.len(),
            forall|j: int|
                0 <= j < i ==> #[trigger] connections@[j].health != ConnectionHealth::Healthy,
        decreases connections@.len() - i,
    {
        if connections[i].health == ConnectionHealth::Healthy {
            return Some(i);
        }
        i = i + 1;
    }
    None
}

/// A returned connection is kept unless it is too old or has failed.
pub fn should_retain(c: &ConnectionTracker, now_ms: u64, config: &ConnectionPoolConfig) -> (b: bool)
    ensures
        b == (!(now_ms > c.created_at_ms && now_ms - c.created_at_ms > config.max_connection_age_ms)
            && c.health != ConnectionHealth::Failed),
{
    !c.is_expired(now_ms, config.max_connection_age_ms) && c.health != ConnectionHealth::Failed
}

/// A connection is health-checked in a sweep only if it is neither too old
/// nor idle for too long; the others are dropped.
pub fn survives_sweep(c: &ConnectionTracker, now_ms: u64, config: &ConnectionPoolConfig) -> (b: bool)
    ensures
        b == !((now_ms > c.created_at_ms && now_ms - c.created_at_ms
            > config.max_connection_age_ms) || (now_ms > c.last_used_ms && now_ms - c.last_used_ms
            > config.max_idle_time_ms)),
{
    !(c.is_expired(now_ms, config.max_connection_age_ms) || c.is_idle(
        now_ms,
        config.max_idle_time_ms,
    ))
}

/// How many connections to open so that the pool holds its minimum; the
/// current count is taken as a `u32` (truncated), as the pool compares it.
pub fn connections_needed(current_count: usize, min_connections: u32) -> (n: u32)
    ensures
        n == if (current_count as u32) < min_connections {
            (min_connections - (current_count as u32)) as u32
        } else {
            0
        },
{
    let current = current_count as u32;
    if current < min_connections {
        min_connections - current
    } else {
        0
    }
}

} // verus!
