//! The liveness rules of the heartbeat: when a connection is due for a ping
//! and when it has been silent for too long.

use vstd::prelude::*;

verus! {

/// The timing of the heartbeat, in milliseconds. The timeout is meant to
/// be the longer of the two; where it is not, a connection is evicted
/// before it is ever pinged again.
#[derive(Debug, PartialEq, Eq, Clone, Copy)]
pub struct LivenessConfig {
    /// A connection is pinged when its last ping is older than this.
    pub ping_interval_ms: u64,
    /// A connection is evicted when its last pong is older than this.
    pub pong_timeout_ms: u64,
    /// Whether every tick broadcasts the time to the connections.
    pub broadcast_clock: bool,
}

impl LivenessConfig {
    /// The timing the session actor ships with: a ping every ten seconds,
    /// eviction after thirty seconds of silence, and a clock broadcast.
    pub open spec fn standard() -> LivenessConfig {
        LivenessConfig { ping_interval_ms: 10_000, pong_timeout_ms: 30_000, broadcast_clock: true }
    }
}

impl Default for LivenessConfig {
    fn default() -> (config: LivenessConfig)
        ensures
            config == LivenessConfig::standard(),
    {
        LivenessConfig { ping_interval_ms: 10_000, pong_timeout_ms: 30_000, broadcast_clock: true }
    }
}

/// Milliseconds from `then` to `now`; zero when the clock went backwards.
pub open spec fn elapsed(now: u64, then: u64) -> int {
    if now >= then {
        now - then
    } else {
        0
    }
}

/// Milliseconds from `then` to `now`; zero when the clock went backwards.
pub fn elapsed_ms(now: u64, then: u64) -> (ms: u64)
    ensures
        ms == elapsed(now, then),
{
    if now >= then {
        now - then
    } else {
        0
    }
}

/// One attached client connection, as the registry sees it.
pub struct ConnectionModel {
    pub id: Seq<char>,
    pub stream: u64,
    pub last_ping_sent_at: u64,
    pub last_pong_received_at: u64,
}

/// The connection has not answered for longer than the timeout.
pub open spec fn timed_out(c: ConnectionModel, now: u64, config: LivenessConfig) -> bool {
    elapsed(now, c.last_pong_received_at) > config.pong_timeout_ms
}

/// The connection is alive and its last ping is older than the interval.
pub open spec fn ping_due(c: ConnectionModel, now: u64, config: LivenessConfig) -> bool {
    !timed_out(c, now, config) && elapsed(now, c.last_ping_sent_at) > config.ping_interval_ms
}

/// The connection after a tick that it survives: pinged now if a ping was
/// due, else unchanged.
pub open spec fn refreshed(c: ConnectionModel, now: u64, config: LivenessConfig) -> ConnectionModel {
    if ping_due(c, now, config) {
        ConnectionModel { last_ping_sent_at: now, ..c }
    } else {
        c
    }
}

/// The first `n` connections after a tick: those that timed out are gone,
/// the others keep their order.
pub open spec fn survivors(
    conns: Seq<ConnectionModel>,
    n: nat,
    now: u64,
    config: LivenessConfig,
) -> Seq<ConnectionModel>
    recommends
        n <= conns.len(),
    decreases n,
{
    if n == 0 {
        Seq::empty()
    } else {
        let rest = survivors(conns, (n - 1) as nat, now, config);
        if timed_out(conns[n - 1], now, config) {
            rest
        } else {
            rest.push(refreshed(conns[n - 1], now, config))
        }
    }
}

/// The streams, in order, of those of the first `n` connections that timed
/// out.
pub open spec fn evicted_streams(
    conns: Seq<ConnectionModel>,
    n: nat,
    now: u64,
    config: LivenessConfig,
) -> Seq<u64>
    recommends
        n <= conns.len(),
    decreases n,
{
    if n == 0 {
        Seq::empty()
    } else {
        let rest = evicted_streams(conns, (n - 1) as nat, now, config);
        if timed_out(conns[n - 1], now, config) {
            rest.push(conns[n - 1].stream)
        } else {
            rest
        }
    }
}

/// The streams, in order, of those of the first `n` connections that are
/// due for a ping.
pub open spec fn pinged_streams(
    conns: Seq<ConnectionModel>,
    n: nat,
    now: u64,
    config: LivenessConfig,
) -> Seq<u64>
    recommends
        n <= conns.len(),
    decreases n,
{
    if n == 0 {
        Seq::empty()
    } else {
        let rest = pinged_streams(conns, (n - 1) as nat, now, config);
        if ping_due(conns[n - 1], now, config) {
            rest.push(conns[n - 1].stream)
        } else {
            rest
        }
    }
}

/// Every connection is either a survivor or evicted, never both.
pub proof fn lemma_sweep_partitions(
    conns: Seq<ConnectionModel>,
    n: nat,
    now: u64,
    config: LivenessConfig,
)
    requires
        n <= conns.len(),
    ensures
        survivors(conns, n, now, config).len() + evicted_streams(conns, n, now, config).len() == n,
        pinged_streams(conns, n, now, config).len() <= survivors(conns, n, now, config).len(),
    decreases n,
{
    if n > 0 {
        lemma_sweep_partitions(conns, (n - 1) as nat, now, config);
    }
}

} // verus!
