//! What holds of the session actor over every sequence of events.
//!
//! The events and the step function restate the operations of the actor
//! over its mathematical content; the proof functions below are stated
//! over them.

use crate::control::{
    distinct_names, has_name, last_write_of, lemma_store_holds_last_writes, lemma_written,
    position_of, written_all, ControlMessageModel,
};
use crate::liveness::{
    evicted_streams, pinged_streams, refreshed, survivors, timed_out, ConnectionModel,
    LivenessConfig,
};
use crate::pipeline::{
    accepted_transcript, lemma_broadcast_iff_first_segment_accepted, min_score_for,
    WhisperResponseModel,
};
use crate::registry::{
    entry_of_id, fresh_connection, has_id, has_stream, lemma_free_id_is_free,
    lemma_push_keeps_well_formed, lemma_remove_keeps_well_formed, position_of_id,
    position_of_stream, streams_of, well_formed, without_id,
};
use crate::scorer::{confidence_score, hard_rejected, Thresholds};
use crate::session::{
    attach_effects, attached, clock_effects, close_effects, control_effects, derived_id,
    detach_effects, detached, eviction_effects, inference_effects, initial, next_generation,
    persisted, persisted_effects, ping_effects, ponged, presence_effect, replay_effects,
    restarted, start_effects, sweep_presence, tick_effects, ticked, ActorModel, EffectModel,
    PayloadModel, Phase,
};
use vstd::prelude::*;

verus! {

/// One event in the life of an actor.
pub enum EventModel {
    /// A connection upgrade under this id.
    Connect { id: Seq<char>, now: u64 },
    /// The peer closed the connection.
    Disconnect { stream: u64 },
    /// A send or a ping to the connection failed.
    SendFailed { stream: u64 },
    /// The connection answered a ping.
    Pong { stream: u64, now: u64 },
    /// A control message arrived from the connection.
    Control { sender: u64, message: ControlMessageModel },
    /// The durable write of a control message came to an end.
    Persisted { sender: u64, message: ControlMessageModel, written: bool },
    /// The heartbeat loop of this generation woke up.
    Tick { generation: u64, now: u64 },
}

/// The state after one event.
pub open spec fn step(a: ActorModel, event: EventModel, config: LivenessConfig) -> ActorModel {
    match event {
        EventModel::Connect { id, now } => if a.next_stream == u64::MAX {
            a
        } else {
            attached(a, id, now)
        },
        EventModel::Disconnect { stream } => detached(a, stream),
        EventModel::SendFailed { stream } => detached(a, stream),
        EventModel::Pong { stream, now } => ponged(a, stream, now),
        EventModel::Control { sender, message } => a,
        EventModel::Persisted { sender, message, written } => persisted(a, message, written),
        EventModel::Tick { generation, now } => ticked(a, generation, now, config),
    }
}

/// The effects of one event.
pub open spec fn step_effects(a: ActorModel, event: EventModel, config: LivenessConfig) -> Seq<
    EffectModel,
> {
    match event {
        EventModel::Connect { id, now } => if a.next_stream == u64::MAX {
            Seq::empty()
        } else {
            attach_effects(a, id, now)
        },
        EventModel::Disconnect { stream } => detach_effects(a, stream, false),
        EventModel::SendFailed { stream } => detach_effects(a, stream, true),
        EventModel::Pong { stream, now } => Seq::empty(),
        EventModel::Control { sender, message } => control_effects(sender, message),
        EventModel::Persisted { sender, message, written } => persisted_effects(
            a,
            sender,
            message,
            written,
        ),
        EventModel::Tick { generation, now } => tick_effects(a, generation, now, config),
    }
}

/// The state after the first `n` events.
pub open spec fn run(a: ActorModel, events: Seq<EventModel>, n: nat, config: LivenessConfig) -> ActorModel
    recommends
        n <= events.len(),
    decreases n,
{
    if n == 0 {
        a
    } else {
        step(run(a, events, (n - 1) as nat, config), events[n - 1], config)
    }
}

/// Every presence update among the effects carries the number of these
/// connections and goes to each of them.
pub open spec fn presence_matches(effects: Seq<EffectModel>, conns: Seq<ConnectionModel>) -> bool {
    forall|i: int|
        0 <= i < effects.len() ==> (#[trigger] effects[i] matches EffectModel::Broadcast {
            streams,
            payload: PayloadModel::Presence { count },
        } ==> count == conns.len() && streams == streams_of(conns))
}

/// The effects start the heartbeat.
pub open spec fn starts_heartbeat(effects: Seq<EffectModel>) -> bool {
    exists|i: int| 0 <= i < effects.len() && #[trigger] effects[i] is StartHeartbeat
}

/// Number of closes among the first `n` effects.
pub open spec fn count_closes(effects: Seq<EffectModel>, n: nat) -> nat
    recommends
        n <= effects.len(),
    decreases n,
{
    if n == 0 {
        0
    } else {
        count_closes(effects, (n - 1) as nat) + if effects[n - 1] is Close {
            1nat
        } else {
            0nat
        }
    }
}

/// Number of the first `n` effects that send a control called `name` to the
/// connection `stream`.
pub open spec fn count_replays(effects: Seq<EffectModel>, n: nat, stream: u64, name: Seq<char>) -> nat
    recommends
        n <= effects.len(),
    decreases n,
{
    if n == 0 {
        0
    } else {
        count_replays(effects, (n - 1) as nat, stream, name) + if is_replay_of(
            effects[n - 1],
            stream,
            name,
        ) {
            1nat
        } else {
            0nat
        }
    }
}

/// The effect sends a control called `name` to the connection `stream`.
pub open spec fn is_replay_of(effect: EffectModel, stream: u64, name: Seq<char>) -> bool {
    effect matches EffectModel::Send { stream: to, payload: PayloadModel::Control(m) } && to
        == stream && m.name == name
}

/// The survivors of a sweep are connections of the registry, in their
/// order, so they form a valid registry content again.
pub proof fn lemma_survivors_well_formed(
    conns: Seq<ConnectionModel>,
    n: nat,
    now: u64,
    config: LivenessConfig,
    next: u64,
)
    requires
        well_formed(conns, next),
        n <= conns.len(),
    ensures
        well_formed(survivors(conns, n, now, config), next),
        survivors(conns, n, now, config).len() <= n,
        forall|i: int|
            0 <= i < survivors(conns, n, now, config).len() ==> exists|j: int|
                0 <= j < n && (#[trigger] survivors(conns, n, now, config)[i]).id == conns[j].id
                    && survivors(conns, n, now, config)[i].stream == conns[j].stream,
    decreases n,
{
    if n > 0 {
        lemma_survivors_well_formed(conns, (n - 1) as nat, now, config, next);
        let rest = survivors(conns, (n - 1) as nat, now, config);
        let all = survivors(conns, n, now, config);
        let last = conns[n - 1];
        if timed_out(last, now, config) {
            assert(all == rest);
        } else {
            let kept = refreshed(last, now, config);
            assert(all == rest.push(kept));
            assert(kept.id == last.id && kept.stream == last.stream);
            assert forall|i: int| 0 <= i < all.len() implies exists|j: int|
                0 <= j < n && (#[trigger] all[i]).id == conns[j].id && all[i].stream
                    == conns[j].stream by {
                if i < rest.len() {
                    assert(all[i] == rest[i]);
                    let j = choose|j: int|
                        0 <= j < n - 1 && rest[i].id == conns[j].id && rest[i].stream
                            == conns[j].stream;
                    assert(0 <= j < n && all[i].id == conns[j].id && all[i].stream
                        == conns[j].stream);
                } else {
                    assert(all[i] == kept);
                    assert(0 <= n - 1 < n && all[i].id == conns[n - 1].id && all[i].stream
                        == conns[n - 1].stream);
                }
            }
            assert forall|i: int, k: int| 0 <= i < k < all.len() implies #[trigger] all[i].id
                != #[trigger] all[k].id && all[i].stream != all[k].stream by {
                if k < rest.len() {
                    assert(all[i] == rest[i] && all[k] == rest[k]);
                    assert(rest[i].id != rest[k].id);
                    assert(rest[i].stream != rest[k].stream);
                } else {
                    assert(all[i] == rest[i]);
                    let j = choose|j: int|
                        0 <= j < n - 1 && rest[i].id == conns[j].id && rest[i].stream
                            == conns[j].stream;
                    assert(conns[j].id != conns[n - 1].id);
                    assert(conns[j].stream != conns[n - 1].stream);
                }
            }
            assert forall|i: int| 0 <= i < all.len() implies (#[trigger] all[i]).stream < next by {
                if i < rest.len() {
                    assert(all[i] == rest[i]);
                } else {
                    assert(conns[n - 1].stream < next);
                }
            }
        }
    }
}

/// Each event takes a consistent state to a consistent state.
pub proof fn lemma_step_keeps_consistency(a: ActorModel, event: EventModel, config: LivenessConfig)
    requires
        a.consistent(),
    ensures
        step(a, event, config).consistent(),
{
    let after = step(a, event, config);
    match event {
        EventModel::Connect { id, now } => {
            if a.next_stream < u64::MAX {
                if has_id(a.connections, id) {
                    lemma_remove_keeps_well_formed(
                        a.connections,
                        a.next_stream,
                        position_of_id(a.connections, id),
                    );
                    assert(a.connections[position_of_id(a.connections, id)].id == id);
                }
                lemma_push_keeps_well_formed(
                    without_id(a.connections, id),
                    a.next_stream,
                    fresh_connection(id, a.next_stream, now),
                );
            }
        },
        EventModel::Disconnect { stream } => {
            if has_stream(a.connections, stream) {
                lemma_remove_keeps_well_formed(
                    a.connections,
                    a.next_stream,
                    position_of_stream(a.connections, stream),
                );
            }
        },
        EventModel::SendFailed { stream } => {
            if has_stream(a.connections, stream) {
                lemma_remove_keeps_well_formed(
                    a.connections,
                    a.next_stream,
                    position_of_stream(a.connections, stream),
                );
            }
        },
        EventModel::Pong { stream, now } => {
            if has_stream(a.connections, stream) {
                let k = position_of_stream(a.connections, stream);
                let conns = a.connections;
                let updated = after.connections;
                assert forall|i: int| 0 <= i < updated.len() implies #[trigger] updated[i].id
                    == conns[i].id && updated[i].stream == conns[i].stream by {}
                assert forall|i: int, j: int| 0 <= i < j < updated.len() implies #[trigger] updated[i].id
                    != #[trigger] updated[j].id by {
                    assert(conns[i].id != conns[j].id);
                }
                assert forall|i: int, j: int|
                    0 <= i < j < updated.len() implies #[trigger] updated[i].stream
                    != #[trigger] updated[j].stream by {
                    assert(conns[i].stream != conns[j].stream);
                }
                assert forall|i: int| 0 <= i < updated.len() implies (#[trigger] updated[i]).stream
                    < a.next_stream by {
                    assert(conns[i].stream < a.next_stream);
                }
            }
        },
        EventModel::Control { sender, message } => {},
        EventModel::Persisted { sender, message, written } => {
            lemma_written(a.controls, message);
        },
        EventModel::Tick { generation, now } => {
            lemma_survivors_well_formed(
                a.connections,
                a.connections.len(),
                now,
                config,
                a.next_stream,
            );
        },
    }
}

/// Presence is always true: whatever the event, every presence update it
/// sets off carries the size of the registry after the event, and goes to
/// exactly the connections that are then attached.
pub proof fn lemma_presence_is_registry_size(
    a: ActorModel,
    event: EventModel,
    config: LivenessConfig,
)
    requires
        a.consistent(),
    ensures
        presence_matches(step_effects(a, event, config), step(a, event, config).connections),
{
    let effects = step_effects(a, event, config);
    let after = step(a, event, config);
    lemma_step_keeps_consistency(a, event, config);
    assert forall|i: int| 0 <= i < effects.len() implies (#[trigger] effects[i] matches EffectModel::Broadcast {
        streams,
        payload: PayloadModel::Presence { count },
    } ==> count == after.connections.len() && streams == streams_of(after.connections)) by {
        match event {
            EventModel::Connect { id, now } => {
                if a.next_stream < u64::MAX {
                    let e = eviction_effects(entry_of_id(a.connections, id));
                    let r = replay_effects(a.next_stream, a.controls);
                    if i < e.len() {
                        assert(effects[i] == e[i]);
                    } else if i < e.len() + r.len() {
                        assert(effects[i] == r[i - e.len()]);
                    } else if i == e.len() + r.len() {
                        assert(effects[i] == presence_effect(after.connections));
                    } else {
                        assert(effects[i] == start_effects(a, after)[i - e.len() - r.len() - 1]);
                    }
                }
            },
            EventModel::Tick { generation, now } => {
                if a.loop_is_live(generation) {
                    let n = a.connections.len();
                    let c = close_effects(evicted_streams(a.connections, n, now, config));
                    let p = ping_effects(pinged_streams(a.connections, n, now, config));
                    let s = sweep_presence(
                        evicted_streams(a.connections, n, now, config),
                        after.connections,
                    );
                    let k = clock_effects(after.connections, now, config);
                    if i < c.len() {
                        assert(effects[i] == c[i]);
                    } else if i < c.len() + p.len() {
                        assert(effects[i] == p[i - c.len()]);
                    } else if i < c.len() + p.len() + s.len() {
                        assert(effects[i] == s[i - c.len() - p.len()]);
                    } else {
                        assert(effects[i] == k[i - c.len() - p.len() - s.len()]);
                    }
                }
            },
            _ => {},
        }
    }
}

/// Consistency holds along every sequence of events.
pub proof fn lemma_run_keeps_consistency(
    a: ActorModel,
    events: Seq<EventModel>,
    n: nat,
    config: LivenessConfig,
)
    requires
        a.consistent(),
        n <= events.len(),
    ensures
        run(a, events, n, config).consistent(),
    decreases n,
{
    if n > 0 {
        lemma_run_keeps_consistency(a, events, (n - 1) as nat, config);
        lemma_step_keeps_consistency(run(a, events, (n - 1) as nat, config), events[n - 1], config);
    }
}

/// For every sequence of connects, disconnects and other events, the
/// presence count reported at each step equals the size of the registry
/// right after that step.
pub proof fn lemma_presence_along_every_run(
    a: ActorModel,
    events: Seq<EventModel>,
    n: nat,
    config: LivenessConfig,
)
    requires
        a.consistent(),
        n < events.len(),
    ensures
        presence_matches(
            step_effects(run(a, events, n, config), events[n as int], config),
            run(a, events, n + 1, config).connections,
        ),
{
    lemma_run_keeps_consistency(a, events, n, config);
    lemma_presence_is_registry_size(run(a, events, n, config), events[n as int], config);
}

/// Only a connect sets off effects that start the heartbeat, and only a
/// connect can take the actor from idle to active.
proof fn lemma_only_connect_starts(a: ActorModel, event: EventModel, config: LivenessConfig)
    requires
        !(event is Connect),
    ensures
        !starts_heartbeat(step_effects(a, event, config)),
        a.connections.len() == 0 ==> step(a, event, config).connections.len() == 0,
        step(a, event, config).generation == a.generation,
{
    let effects = step_effects(a, event, config);
    assert forall|i: int| 0 <= i < effects.len() implies !(#[trigger] effects[i] is StartHeartbeat) by {
        match event {
            EventModel::Tick { generation, now } => {
                if a.loop_is_live(generation) {
                    let n = a.connections.len();
                    let after = survivors(a.connections, n, now, config);
                    let c = close_effects(evicted_streams(a.connections, n, now, config));
                    let p = ping_effects(pinged_streams(a.connections, n, now, config));
                    let s = sweep_presence(evicted_streams(a.connections, n, now, config), after);
                    let k = clock_effects(after, now, config);
                    if i < c.len() {
                        assert(effects[i] == c[i]);
                    } else if i < c.len() + p.len() {
                        assert(effects[i] == p[i - c.len()]);
                    } else if i < c.len() + p.len() + s.len() {
                        assert(effects[i] == s[i - c.len() - p.len()]);
                    } else {
                        assert(effects[i] == k[i - c.len() - p.len() - s.len()]);
                    }
                }
            },
            _ => {},
        }
    }
    if a.connections.len() == 0 {
        assert(!has_stream(a.connections, arbitrary::<u64>())) by {
            assert forall|stream: u64| !has_stream(a.connections, stream) by {}
        }
        match event {
            EventModel::Disconnect { stream } => {
                assert(!has_stream(a.connections, stream));
            },
            EventModel::SendFailed { stream } => {
                assert(!has_stream(a.connections, stream));
            },
            EventModel::Pong { stream, now } => {
                assert(!has_stream(a.connections, stream));
            },
            _ => {},
        }
    }
}

/// The heartbeat follows the registry.
///
/// The loop that was started last is live exactly when the registry is not
/// empty. An event starts the heartbeat exactly when it takes the actor
/// from idle to active, and then under a new generation, so that a loop
/// left over from an earlier active period is not live. On an active actor
/// no event starts the heartbeat a second time.
pub proof fn lemma_heartbeat_follows_registry(
    a: ActorModel,
    event: EventModel,
    config: LivenessConfig,
)
    requires
        a.consistent(),
    ensures
        ({
            let after = step(a, event, config);
            let effects = step_effects(a, event, config);
            &&& after.loop_is_live(after.generation) <==> after.connections.len() > 0
            &&& after.phase() == Phase::Active <==> after.connections.len() > 0
            &&& starts_heartbeat(effects) <==> (a.phase() == Phase::Idle && after.phase()
                == Phase::Active)
            &&& starts_heartbeat(effects) ==> after.generation == next_generation(a.generation)
                && effects.last() == (EffectModel::StartHeartbeat { generation: after.generation })
                && !after.loop_is_live(a.generation)
            &&& !starts_heartbeat(effects) ==> after.generation == a.generation
            &&& a.phase() == Phase::Active ==> !starts_heartbeat(effects)
        }),
{
    let after = step(a, event, config);
    let effects = step_effects(a, event, config);
    match event {
        EventModel::Connect { id, now } => {
            if a.next_stream < u64::MAX {
                let e = eviction_effects(entry_of_id(a.connections, id));
                let r = replay_effects(a.next_stream, a.controls);
                let s = start_effects(a, after);
                assert(after.connections.len() > 0);
                if a.connections.len() == 0 {
                    assert(effects.last() == s[0]);
                    assert(effects[effects.len() - 1] is StartHeartbeat);
                } else {
                    assert forall|i: int| 0 <= i < effects.len() implies !(#[trigger] effects[i] is StartHeartbeat) by {
                        if i < e.len() {
                            assert(effects[i] == e[i]);
                        } else if i < e.len() + r.len() {
                            assert(effects[i] == r[i - e.len()]);
                        } else {
                            assert(effects[i] == presence_effect(after.connections));
                        }
                    }
                }
            }
        },
        _ => {
            lemma_only_connect_starts(a, event, config);
        },
    }
}

/// A heartbeat loop goes on after a tick exactly when it is the loop that
/// was started last and a connection survives the tick; a loop that is not
/// live changes nothing and sets nothing off.
pub proof fn lemma_loop_ends_on_empty_registry(
    a: ActorModel,
    generation: u64,
    now: u64,
    config: LivenessConfig,
)
    ensures
        ticked(a, generation, now, config).loop_is_live(generation) <==> (a.loop_is_live(generation)
            && survivors(a.connections, a.connections.len(), now, config).len() > 0),
        !a.loop_is_live(generation) ==> ticked(a, generation, now, config) == a && tick_effects(
            a,
            generation,
            now,
            config,
        ) == Seq::<EffectModel>::empty(),
        a.connections.len() == 0 ==> !ticked(a, generation, now, config).loop_is_live(generation),
{
}

/// Effects that are no closes do not change the number of closes.
proof fn lemma_count_closes_tail(effects: Seq<EffectModel>, from: nat, n: nat)
    requires
        from <= n <= effects.len(),
        forall|i: int| from <= i < n ==> !(#[trigger] effects[i] is Close),
    ensures
        count_closes(effects, n) == count_closes(effects, from),
    decreases n,
{
    if from < n {
        lemma_count_closes_tail(effects, from, (n - 1) as nat);
    }
}

/// A reconnect replaces one entry.
///
/// When a connection arrives under an id that is already registered, the
/// registry afterwards is as large as before and holds that id exactly
/// once, for the new connection; the prior entry, and no other, is
/// evicted: the effects close its stream and nothing else, and every
/// connection with another id stays.
pub proof fn lemma_reconnect_replaces_one(a: ActorModel, id: Seq<char>, now: u64)
    requires
        a.consistent(),
        has_id(a.connections, id),
        a.next_stream < u64::MAX,
    ensures
        ({
            let after = attached(a, id, now);
            let effects = attach_effects(a, id, now);
            let prior = a.connections[position_of_id(a.connections, id)];
            &&& after.consistent()
            &&& after.connections.len() == a.connections.len()
            &&& has_id(after.connections, id)
            &&& after.connections[position_of_id(after.connections, id)] == fresh_connection(
                id,
                a.next_stream,
                now,
            )
            &&& !has_stream(after.connections, prior.stream)
            &&& count_closes(effects, effects.len()) == 1
            &&& effects[1] == (EffectModel::Close { stream: prior.stream })
            &&& forall|i: int|
                0 <= i < a.connections.len() && (#[trigger] a.connections[i]).id != id
                    ==> after.connections.contains(a.connections[i])
        }),
{
    let after = attached(a, id, now);
    let effects = attach_effects(a, id, now);
    let k = position_of_id(a.connections, id);
    let prior = a.connections[k];
    let base = a.connections.remove(k);
    let fresh = fresh_connection(id, a.next_stream, now);
    assert(prior.id == id);
    lemma_remove_keeps_well_formed(a.connections, a.next_stream, k);
    lemma_push_keeps_well_formed(base, a.next_stream, fresh);
    assert(after.connections == base.push(fresh));
    assert(after.connections[base.len() as int] == fresh);
    assert forall|s: int| 0 <= s < after.connections.len() implies (#[trigger] after.connections[s]).stream
        != prior.stream by {
        if s < base.len() {
            assert(after.connections[s] == base[s]);
            assert(has_stream(base, base[s].stream));
        } else {
            assert(prior.stream < a.next_stream);
        }
    }
    let e = eviction_effects(entry_of_id(a.connections, id));
    let r = replay_effects(a.next_stream, a.controls);
    assert(e.len() == 2);
    assert(effects[0] == e[0] && effects[1] == e[1]);
    assert forall|i: int| 2 <= i < effects.len() implies !(#[trigger] effects[i] is Close) by {
        if i < 2 + r.len() {
            assert(effects[i] == r[i - 2]);
        } else if i == 2 + r.len() {
            assert(effects[i] == presence_effect(after.connections));
        } else {
            assert(effects[i] == start_effects(a, after)[i - 3 - r.len()]);
        }
    }
    lemma_count_closes_tail(effects, 2, effects.len());
    reveal_with_fuel(count_closes, 3);
    assert(count_closes(effects, 2) == 1);
    assert forall|i: int|
        0 <= i < a.connections.len() && (#[trigger] a.connections[i]).id
            != id implies after.connections.contains(a.connections[i]) by {
        let j = if i < k {
            i
        } else {
            i - 1
        };
        assert(i != k);
        assert(base[j] == a.connections[i]);
        assert(after.connections[j] == a.connections[i]);
    }
}

/// Among the first `n` replayed controls, the one called `name` occurs
/// once if its position is below `n`, and not at all otherwise.
proof fn lemma_count_replays_prefix(
    effects: Seq<EffectModel>,
    offset: nat,
    controls: Seq<ControlMessageModel>,
    stream: u64,
    name: Seq<char>,
    n: nat,
)
    requires
        distinct_names(controls),
        n <= controls.len(),
        offset + controls.len() <= effects.len(),
        forall|i: int| 0 <= i < offset ==> !is_replay_of(#[trigger] effects[i], stream, name),
        forall|i: int|
            0 <= i < controls.len() ==> #[trigger] effects[offset + i] == (EffectModel::Send {
                stream,
                payload: PayloadModel::Control(controls[i]),
            }),
    ensures
        count_replays(effects, offset + n, stream, name) == if has_name(controls, name)
            && position_of(controls, name) < n {
            1nat
        } else {
            0nat
        },
    decreases n,
{
    if n == 0 {
        lemma_count_replays_tail(effects, 0, offset, stream, name);
    } else {
        lemma_count_replays_prefix(effects, offset, controls, stream, name, (n - 1) as nat);
        let last = effects[offset + n - 1];
        assert(last == (EffectModel::Send {
            stream,
            payload: PayloadModel::Control(controls[n - 1]),
        }));
        if controls[n - 1].name == name {
            assert(has_name(controls, name));
            let p = position_of(controls, name);
            assert(controls[p].name == name);
            assert(p == n - 1);
        } else if has_name(controls, name) {
            let p = position_of(controls, name);
            assert(controls[p].name == name);
            assert(p != n - 1);
        }
    }
}

/// Effects that replay nothing do not change the number of replays.
proof fn lemma_count_replays_tail(
    effects: Seq<EffectModel>,
    from: nat,
    n: nat,
    stream: u64,
    name: Seq<char>,
)
    requires
        from <= n <= effects.len(),
        forall|i: int| from <= i < n ==> !is_replay_of(#[trigger] effects[i], stream, name),
    ensures
        count_replays(effects, n, stream, name) == count_replays(effects, from, stream, name),
    decreases n,
{
    if from < n {
        lemma_count_replays_tail(effects, from, (n - 1) as nat, stream, name);
    }
}

/// A connection that arrives gets every stored control exactly once.
///
/// Among the effects of a connect, each stored control is sent once to the
/// new connection, with the value the store holds; a name that is not
/// stored is not sent; and no stored control is sent to anyone else.
pub proof fn lemma_replay_exactly_once(a: ActorModel, id: Seq<char>, now: u64, name: Seq<char>)
    requires
        a.consistent(),
        a.next_stream < u64::MAX,
    ensures
        ({
            let effects = attach_effects(a, id, now);
            &&& count_replays(effects, effects.len(), a.next_stream, name) == if has_name(
                a.controls,
                name,
            ) {
                1nat
            } else {
                0nat
            }
            &&& has_name(a.controls, name) ==> effects.contains(
                EffectModel::Send {
                    stream: a.next_stream,
                    payload: PayloadModel::Control(a.controls[position_of(a.controls, name)]),
                },
            )
            &&& forall|i: int|
                0 <= i < effects.len() ==> (#[trigger] effects[i] matches EffectModel::Send {
                    stream,
                    ..
                } ==> stream == a.next_stream)
        }),
{
    let after = attached(a, id, now);
    let effects = attach_effects(a, id, now);
    let e = eviction_effects(entry_of_id(a.connections, id));
    let r = replay_effects(a.next_stream, a.controls);
    let stream = a.next_stream;
    assert forall|i: int| 0 <= i < e.len() implies !is_replay_of(#[trigger] effects[i], stream, name) by {
        assert(effects[i] == e[i]);
    }
    assert forall|i: int| 0 <= i < a.controls.len() implies #[trigger] effects[e.len() + i] == (
    EffectModel::Send { stream, payload: PayloadModel::Control(a.controls[i]) }) by {
        assert(effects[e.len() + i] == r[i]);
    }
    lemma_count_replays_prefix(effects, e.len(), a.controls, stream, name, a.controls.len());
    assert forall|i: int| e.len() + r.len() <= i < effects.len() implies !is_replay_of(
        #[trigger] effects[i],
        stream,
        name,
    ) by {
        if i == e.len() + r.len() {
            assert(effects[i] == presence_effect(after.connections));
        } else {
            assert(effects[i] == start_effects(a, after)[i - e.len() - r.len() - 1]);
        }
    }
    lemma_count_replays_tail(effects, e.len() + r.len(), effects.len(), stream, name);
    if has_name(a.controls, name) {
        let p = position_of(a.controls, name);
        assert(a.controls[p].name == name);
        assert(effects[e.len() + p] == (EffectModel::Send {
            stream,
            payload: PayloadModel::Control(a.controls[p]),
        }));
    }
    assert forall|i: int| 0 <= i < effects.len() implies (#[trigger] effects[i] matches EffectModel::Send {
        stream: to,
        ..
    } ==> to == stream) by {
        if i < e.len() {
            assert(effects[i] == e[i]);
        } else if i < e.len() + r.len() {
            assert(effects[i] == r[i - e.len()]);
        } else if i == e.len() + r.len() {
            assert(effects[i] == presence_effect(after.connections));
        } else {
            assert(effects[i] == start_effects(a, after)[i - e.len() - r.len() - 1]);
        }
    }
}

/// Replay after a restart.
///
/// Whatever controls were written before the restart, and in whatever
/// order, the first connection after it gets each name that was written
/// exactly once, with the value of the last write under that name, and
/// gets no name that was never written.
pub proof fn lemma_replay_after_restart(
    writes: Seq<ControlMessageModel>,
    id: Seq<char>,
    now: u64,
    name: Seq<char>,
)
    ensures
        ({
            let a = restarted(writes);
            let effects = attach_effects(a, id, now);
            let last = last_write_of(writes, writes.len(), name);
            &&& a.consistent()
            &&& last >= 0 <==> exists|i: int| 0 <= i < writes.len() && writes[i].name == name
            &&& count_replays(effects, effects.len(), 0, name) == if last >= 0 {
                1nat
            } else {
                0nat
            }
            &&& last >= 0 ==> effects.contains(
                EffectModel::Send { stream: 0, payload: PayloadModel::Control(writes[last]) },
            )
        }),
{
    let a = restarted(writes);
    lemma_store_holds_last_writes(writes, writes.len());
    assert(well_formed(a.connections, a.next_stream));
    lemma_replay_exactly_once(a, id, now, name);
    lemma_last_write_exists(writes, writes.len(), name);
    assert(has_name(a.controls, name) <==> last_write_of(writes, writes.len(), name) >= 0);
    if last_write_of(writes, writes.len(), name) >= 0 {
        assert(a.controls[position_of(a.controls, name)] == writes[last_write_of(
            writes,
            writes.len(),
            name,
        )]);
    }
}

/// A name has a last write exactly when it was written, and the last write
/// is under that name.
pub proof fn lemma_last_write_exists(writes: Seq<ControlMessageModel>, n: nat, name: Seq<char>)
    requires
        n <= writes.len(),
    ensures
        last_write_of(writes, n, name) >= 0 <==> exists|i: int|
            0 <= i < n && writes[i].name == name,
        last_write_of(writes, n, name) >= 0 ==> last_write_of(writes, n, name) < n
            && writes[last_write_of(writes, n, name)].name == name,
        forall|i: int|
            last_write_of(writes, n, name) < i < n ==> (#[trigger] writes[i]).name != name,
    decreases n,
{
    if n > 0 {
        lemma_last_write_exists(writes, (n - 1) as nat, name);
        if writes[n - 1].name == name {
            assert(0 <= n - 1 < n && writes[n - 1].name == name);
        } else {
            if exists|i: int| 0 <= i < n && writes[i].name == name {
                let i = choose|i: int| 0 <= i < n && writes[i].name == name;
                assert(0 <= i < n - 1 && writes[i].name == name);
            }
        }
    }
}

/// Every state that a new actor can reach is consistent.
pub proof fn lemma_reachable_states_are_consistent(
    events: Seq<EventModel>,
    n: nat,
    config: LivenessConfig,
)
    requires
        n <= events.len(),
    ensures
        run(initial(), events, n, config).consistent(),
{
    lemma_run_keeps_consistency(initial(), events, n, config);
}

/// Along every sequence of events the heartbeat follows the registry: at
/// each step it is started exactly when the actor goes from idle to
/// active, never while it is active, and the loop that was started last is
/// live exactly when the registry is not empty.
pub proof fn lemma_heartbeat_along_every_run(
    a: ActorModel,
    events: Seq<EventModel>,
    n: nat,
    config: LivenessConfig,
)
    requires
        a.consistent(),
        n < events.len(),
    ensures
        ({
            let before = run(a, events, n, config);
            let after = run(a, events, n + 1, config);
            let effects = step_effects(before, events[n as int], config);
            &&& starts_heartbeat(effects) <==> (before.phase() == Phase::Idle && after.phase()
                == Phase::Active)
            &&& before.phase() == Phase::Active ==> !starts_heartbeat(effects)
            &&& after.loop_is_live(after.generation) <==> after.connections.len() > 0
        }),
{
    lemma_run_keeps_consistency(a, events, n, config);
    lemma_heartbeat_follows_registry(run(a, events, n, config), events[n as int], config);
}

/// The first connection starts the heartbeat.
///
/// A connection that arrives at an idle actor makes it active: the
/// registry then holds that one connection, and the effects start the
/// heartbeat once, as their last, under a new generation.
pub proof fn lemma_first_connection_starts_heartbeat(a: ActorModel, id: Seq<char>, now: u64)
    requires
        a.consistent(),
        a.connections.len() == 0,
        a.next_stream < u64::MAX,
    ensures
        ({
            let after = attached(a, id, now);
            let effects = attach_effects(a, id, now);
            &&& after.consistent()
            &&& after.connections == seq![fresh_connection(id, a.next_stream, now)]
            &&& after.phase() == Phase::Active
            &&& after.loop_is_live(after.generation)
            &&& after.generation == next_generation(a.generation)
            &&& effects.last() == (EffectModel::StartHeartbeat { generation: after.generation })
            &&& forall|i: int|
                0 <= i < effects.len() - 1 ==> !(#[trigger] effects[i] is StartHeartbeat)
        }),
{
    let after = attached(a, id, now);
    let effects = attach_effects(a, id, now);
    assert(!has_id(a.connections, id));
    lemma_push_keeps_well_formed(a.connections, a.next_stream, fresh_connection(id, a.next_stream, now));
    assert(after.connections =~= seq![fresh_connection(id, a.next_stream, now)]);
    let r = replay_effects(a.next_stream, a.controls);
    assert(eviction_effects(entry_of_id(a.connections, id)).len() == 0);
    assert forall|i: int| 0 <= i < effects.len() - 1 implies !(#[trigger] effects[i] is StartHeartbeat) by {
        if i < r.len() {
            assert(effects[i] == r[i]);
        } else {
            assert(effects[i] == presence_effect(after.connections));
        }
    }
    assert(effects.last() == start_effects(a, after)[0]);
}

/// A reconnect keeps the presence count: when a connection arrives under
/// an id that is already registered, among `n` connections, the one
/// presence update that goes out carries `n`.
pub proof fn lemma_reconnect_keeps_presence(a: ActorModel, id: Seq<char>, now: u64)
    requires
        a.consistent(),
        has_id(a.connections, id),
        a.next_stream < u64::MAX,
    ensures
        ({
            let after = attached(a, id, now);
            let effects = attach_effects(a, id, now);
            &&& effects.contains(presence_effect(after.connections))
            &&& presence_effect(after.connections) matches EffectModel::Broadcast {
                payload: PayloadModel::Presence { count },
                ..
            } && count == a.connections.len()
            &&& presence_matches(effects, after.connections)
        }),
{
    let after = attached(a, id, now);
    let effects = attach_effects(a, id, now);
    lemma_reconnect_replaces_one(a, id, now);
    lemma_presence_is_registry_size(a, EventModel::Connect { id, now }, LivenessConfig::standard());
    let e = eviction_effects(entry_of_id(a.connections, id));
    let r = replay_effects(a.next_stream, a.controls);
    assert(effects[(e.len() + r.len()) as int] == presence_effect(after.connections));
}

/// A connection without an id evicts nobody: the id derived for it is held
/// by no attached connection, so every connection stays, the registry
/// grows by one, and nothing is probed or closed.
pub proof fn lemma_derived_id_evicts_nobody(a: ActorModel, now: u64)
    requires
        a.consistent(),
        a.next_stream < u64::MAX,
    ensures
        ({
            let id = derived_id(a);
            let after = attached(a, id, now);
            let effects = attach_effects(a, id, now);
            &&& !has_id(a.connections, id)
            &&& after.connections == a.connections.push(fresh_connection(id, a.next_stream, now))
            &&& after.consistent()
            &&& count_closes(effects, effects.len()) == 0
        }),
{
    let id = derived_id(a);
    let after = attached(a, id, now);
    let effects = attach_effects(a, id, now);
    lemma_free_id_is_free(a.connections, crate::session::derived_candidate(a.next_stream));
    lemma_push_keeps_well_formed(a.connections, a.next_stream, fresh_connection(id, a.next_stream, now));
    let r = replay_effects(a.next_stream, a.controls);
    assert forall|i: int| 0 <= i < effects.len() implies !(#[trigger] effects[i] is Close) by {
        if i < r.len() {
            assert(effects[i] == r[i]);
        } else if i == r.len() {
            assert(effects[i] == presence_effect(after.connections));
        } else {
            assert(effects[i] == start_effects(a, after)[i - r.len() - 1]);
        }
    }
    lemma_count_closes_tail(effects, 0, effects.len());
}

/// A failed durable write leaves no trace: the store is as it was, nobody
/// is sent the message, and a connection that arrives afterwards is
/// replayed what the store held before. A write that succeeded puts the
/// message into the store and sends it to the others.
pub proof fn lemma_store_follows_durable_writes(
    a: ActorModel,
    sender: u64,
    message: ControlMessageModel,
    id: Seq<char>,
    now: u64,
)
    requires
        a.consistent(),
    ensures
        persisted(a, message, false) == a,
        persisted_effects(a, sender, message, false) == Seq::<EffectModel>::empty(),
        attach_effects(persisted(a, message, false), id, now) == attach_effects(a, id, now),
        has_name(persisted(a, message, true).controls, message.name),
        persisted(a, message, true).controls[position_of(
            persisted(a, message, true).controls,
            message.name,
        )] == message,
        persisted(a, message, true).consistent(),
        step(a, EventModel::Control { sender, message }, LivenessConfig::standard()) == a,
{
    lemma_written(a.controls, message);
}

/// An accepted result reaches everyone: when an inference result has
/// text and the scorer accepts its first segment, the one effect is the
/// transcript to every attached connection, the sender included, whatever
/// the other segments of the result score.
pub proof fn lemma_accepted_result_reaches_everyone(
    a: ActorModel,
    response: WhisperResponseModel,
    audio: Seq<char>,
    is_streaming: bool,
    t: Thresholds,
)
    requires
        response.text.len() > 0,
        response.segments matches Some(segments) && segments.len() > 0 && !hard_rejected(
            segments[0],
            t,
        ) && confidence_score(segments[0], t) >= min_score_for(response.text, t),
    ensures
        inference_effects(a, Some(response), audio, is_streaming, t) == seq![
            EffectModel::Broadcast {
                streams: streams_of(a.connections),
                payload: PayloadModel::Transcription(
                    accepted_transcript(response, audio, is_streaming),
                ),
            },
        ],
        accepted_transcript(response, audio, is_streaming).text == response.text,
        accepted_transcript(response, audio, is_streaming).is_final == !is_streaming,
        accepted_transcript(response, audio, is_streaming).words == response.segments->0[0].words,
        accepted_transcript(response, audio, is_streaming).avg_logprob
            == response.segments->0[0].avg_logprob,
{
    lemma_broadcast_iff_first_segment_accepted(response, t);
}

} // verus!
