//! The session actor: a single-writer state machine that owns the
//! connection registry and the control store of one actor identity.
//!
//! Every operation takes the current state and one event and returns the
//! effects for the host to carry out: messages to send, connections to ping
//! or close, writes to persist, the heartbeat to start. The actor itself
//! performs no input or output.

use crate::control::{
    distinct_names, storage_key, storage_key_for, written, written_all, ControlMessage,
    ControlMessageModel, ControlStore,
};
use crate::liveness::{evicted_streams, pinged_streams, survivors, ConnectionModel, LivenessConfig};
use crate::pipeline::{
    assess_transcription, base64_standard, prepare_audio, rejection_of, skip_reason, wav_file,
    accepted_transcript, Submission, TranscriptionResult, TranscriptionResultModel, Verdict,
    WhisperResponse,
};
use crate::registry::{
    entry_of_id, entry_of_stream, free_id, fresh_connection, has_stream, position_of_stream,
    streams_of, well_formed, without_id, without_stream, ClientConnection, Registry,
};
use crate::scorer::ScorerConfig;
use crate::text::{
    decimal, equal_ignoring_ascii_case, format_decimal, same_text_ignoring_ascii_case,
};
use vstd::prelude::*;

verus! {

/// What is sent to a connection.
#[derive(Debug, PartialEq, Eq)]
pub enum Payload {
    /// A control message, as it was received.
    Control(ControlMessage),
    /// The number of attached connections.
    Presence { count: usize },
    /// The time of a heartbeat tick, in milliseconds.
    Clock { utc_ms: u64 },
    /// An accepted transcript.
    Transcription(TranscriptionResult),
    /// The content of one tab.
    TabBody { id: String, value: String },
}

/// Mathematical content of a `Payload`.
pub enum PayloadModel {
    Control(ControlMessageModel),
    Presence { count: nat },
    Clock { utc_ms: u64 },
    Transcription(TranscriptionResultModel),
    TabBody { id: Seq<char>, value: Seq<char> },
}

impl DeepView for Payload {
    type V = PayloadModel;

    open spec fn deep_view(&self) -> PayloadModel {
        match self {
            Payload::Control(m) => PayloadModel::Control(m@),
            Payload::Presence { count } => PayloadModel::Presence { count: *count as nat },
            Payload::Clock { utc_ms } => PayloadModel::Clock { utc_ms: *utc_ms },
            Payload::Transcription(t) => PayloadModel::Transcription(t@),
            Payload::TabBody { id, value } => PayloadModel::TabBody { id: id@, value: value@ },
        }
    }
}

impl View for Payload {
    type V = PayloadModel;

    open spec fn view(&self) -> PayloadModel {
        self.deep_view()
    }
}

/// One thing for the host to do on behalf of the actor.
#[derive(Debug, PartialEq, Eq)]
pub enum Effect {
    /// Send the payload to one connection.
    Send { stream: u64, payload: Payload },
    /// Send the payload to each of these connections. A failure on one of
    /// them does not keep the others from receiving it.
    Broadcast { streams: Vec<u64>, payload: Payload },
    /// Probe the connection for liveness.
    Ping { stream: u64 },
    /// Close the connection; the registry no longer holds it.
    Close { stream: u64 },
    /// Write the message of `sender` to the durable store under the key,
    /// and report the outcome of the write to the actor.
    Persist { key: String, message: ControlMessage, sender: u64 },
    /// Start the heartbeat loop of this generation.
    StartHeartbeat { generation: u64 },
    /// Submit the audio to the inference service.
    Infer { stream: u64, audio: String, is_streaming: bool },
}

/// Mathematical content of an `Effect`.
pub enum EffectModel {
    Send { stream: u64, payload: PayloadModel },
    Broadcast { streams: Seq<u64>, payload: PayloadModel },
    Ping { stream: u64 },
    Close { stream: u64 },
    Persist { key: Seq<char>, message: ControlMessageModel, sender: u64 },
    StartHeartbeat { generation: u64 },
    Infer { stream: u64, audio: Seq<char>, is_streaming: bool },
}

impl DeepView for Effect {
    type V = EffectModel;

    open spec fn deep_view(&self) -> EffectModel {
        match self {
            Effect::Send { stream, payload } => EffectModel::Send {
                stream: *stream,
                payload: payload@,
            },
            Effect::Broadcast { streams, payload } => EffectModel::Broadcast {
                streams: streams@,
                payload: payload@,
            },
            Effect::Ping { stream } => EffectModel::Ping { stream: *stream },
            Effect::Close { stream } => EffectModel::Close { stream: *stream },
            Effect::Persist { key, message, sender } => EffectModel::Persist {
                key: key@,
                message: message@,
                sender: *sender,
            },
            Effect::StartHeartbeat { generation } => EffectModel::StartHeartbeat {
                generation: *generation,
            },
            Effect::Infer { stream, audio, is_streaming } => EffectModel::Infer {
                stream: *stream,
                audio: audio@,
                is_streaming: *is_streaming,
            },
        }
    }
}

impl View for Effect {
    type V = EffectModel;

    open spec fn view(&self) -> EffectModel {
        self.deep_view()
    }
}

/// The two states of the connection lifecycle.
#[derive(Debug, PartialEq, Eq, Clone, Copy)]
pub enum Phase {
    /// No connection is attached; no heartbeat runs.
    Idle,
    /// At least one connection is attached; the heartbeat runs.
    Active,
}

/// Mathematical content of a `SessionActor`.
pub struct ActorModel {
    /// The attached connections.
    pub connections: Seq<ConnectionModel>,
    /// The stream handle that the next connection gets.
    pub next_stream: u64,
    /// The stored control messages.
    pub controls: Seq<ControlMessageModel>,
    /// The generation of the heartbeat loop that was started last.
    pub generation: u64,
}

impl ActorModel {
    /// The state the lifecycle is in.
    pub open spec fn phase(self) -> Phase {
        if self.connections.len() > 0 {
            Phase::Active
        } else {
            Phase::Idle
        }
    }

    /// What every reachable state satisfies: ids and stream handles are
    /// unique, and each control name is stored once.
    pub open spec fn consistent(self) -> bool {
        &&& well_formed(self.connections, self.next_stream)
        &&& distinct_names(self.controls)
    }

    /// A heartbeat loop of generation `generation` goes on exactly when it
    /// is the loop that was started last and a connection is attached.
    pub open spec fn loop_is_live(self, generation: u64) -> bool {
        generation == self.generation && self.connections.len() > 0
    }
}

/// A new actor: nothing attached, nothing stored.
pub open spec fn initial() -> ActorModel {
    ActorModel {
        connections: Seq::empty(),
        next_stream: 0,
        controls: Seq::empty(),
        generation: 0,
    }
}

/// The actor after a restart: idle, holding what the writes left in the
/// durable store.
pub open spec fn restarted(writes: Seq<ControlMessageModel>) -> ActorModel {
    ActorModel { controls: written_all(writes, writes.len()), ..initial() }
}

/// The generation after `generation`; the numbering wraps around. Only
/// equality of generations is ever asked, and a loop left over from an
/// earlier active period would have to sleep through every other
/// generation to be taken for the current one.
pub open spec fn next_generation(generation: u64) -> u64 {
    if generation == u64::MAX {
        0
    } else {
        (generation + 1) as u64
    }
}

/// The id that is tried first for a connection that supplied none:
/// `conn-` and its stream handle in decimal.
pub open spec fn derived_candidate(stream: u64) -> Seq<char> {
    seq!['c', 'o', 'n', 'n', '-'] + decimal(stream as nat)
}

/// The id of a connection that supplied none: `conn-` and its stream
/// handle in decimal, followed by as few underscores as it takes for no
/// attached connection to hold it.
pub open spec fn derived_id(a: ActorModel) -> Seq<char> {
    free_id(a.connections, derived_candidate(a.next_stream))
}

/// The state after a connection is admitted under `id`: it replaces a
/// connection of the same id, and a new heartbeat generation begins when
/// the registry was empty.
pub open spec fn attached(a: ActorModel, id: Seq<char>, now: u64) -> ActorModel
    recommends
        a.next_stream < u64::MAX,
{
    ActorModel {
        connections: without_id(a.connections, id).push(fresh_connection(id, a.next_stream, now)),
        next_stream: (a.next_stream + 1) as u64,
        controls: a.controls,
        generation: if a.connections.len() == 0 {
            next_generation(a.generation)
        } else {
            a.generation
        },
    }
}

/// What happens to a connection that is replaced: a liveness probe, then
/// the close.
pub open spec fn eviction_effects(prior: Option<ConnectionModel>) -> Seq<EffectModel> {
    match prior {
        Some(c) => seq![EffectModel::Ping { stream: c.stream }, EffectModel::Close { stream: c.stream }],
        None => Seq::empty(),
    }
}

/// The replay of the stored controls to one connection: one message per
/// stored control.
pub open spec fn replay_effects(stream: u64, controls: Seq<ControlMessageModel>) -> Seq<
    EffectModel,
> {
    Seq::new(
        controls.len(),
        |i: int| EffectModel::Send { stream, payload: PayloadModel::Control(controls[i]) },
    )
}

/// The presence update: the number of connections, to each of them.
pub open spec fn presence_effect(conns: Seq<ConnectionModel>) -> EffectModel {
    EffectModel::Broadcast {
        streams: streams_of(conns),
        payload: PayloadModel::Presence { count: conns.len() },
    }
}

/// The start of the heartbeat, on the transition from idle to active only.
pub open spec fn start_effects(before: ActorModel, after: ActorModel) -> Seq<EffectModel> {
    if before.connections.len() == 0 {
        seq![EffectModel::StartHeartbeat { generation: after.generation }]
    } else {
        Seq::empty()
    }
}

/// The effects of admitting a connection, in order: the eviction of a
/// duplicate, the replay of every stored control to the new connection,
/// the presence update to all, and the start of the heartbeat if the
/// registry was empty.
pub open spec fn attach_effects(a: ActorModel, id: Seq<char>, now: u64) -> Seq<EffectModel> {
    let after = attached(a, id, now);
    eviction_effects(entry_of_id(a.connections, id)) + replay_effects(a.next_stream, a.controls)
        + seq![presence_effect(after.connections)] + start_effects(a, after)
}

/// The id a connection is registered under: the one it supplied, else
/// the one derived from its stream handle, which no attached connection
/// holds.
pub open spec fn connect_id(a: ActorModel, client_id: Option<Seq<char>>) -> Seq<char> {
    match client_id {
        Some(id) => id,
        None => derived_id(a),
    }
}

/// The state after a control message is written to the store.
pub open spec fn control_written(a: ActorModel, message: ControlMessageModel) -> ActorModel {
    ActorModel { controls: written(a.controls, message), ..a }
}

/// The effect of a control message from `sender`: the durable write under
/// the key of its name.
pub open spec fn control_effects(sender: u64, message: ControlMessageModel) -> Seq<EffectModel> {
    seq![EffectModel::Persist { key: storage_key(message.name), message, sender }]
}

/// The state after the durable write of a control message came to an end:
/// the message is in the store if and only if it was written.
pub open spec fn persisted(a: ActorModel, message: ControlMessageModel, written: bool) -> ActorModel {
    if written {
        control_written(a, message)
    } else {
        a
    }
}

/// The effects of the end of a durable write: the message to every
/// connection but its sender where it was written, and nothing where the
/// write failed.
pub open spec fn persisted_effects(
    a: ActorModel,
    sender: u64,
    message: ControlMessageModel,
    written: bool,
) -> Seq<EffectModel> {
    if written {
        seq![
            EffectModel::Broadcast {
                streams: streams_of(without_stream(a.connections, sender)),
                payload: PayloadModel::Control(message),
            },
        ]
    } else {
        Seq::empty()
    }
}

/// The effects of an audio frame from `sender`: the inference call, unless
/// the frame is skipped.
pub open spec fn audio_effects(
    sender: u64,
    samples: Seq<u8>,
    is_streaming: bool,
    t: crate::scorer::Thresholds,
) -> Seq<EffectModel> {
    if skip_reason(samples, t) is Some {
        Seq::empty()
    } else {
        seq![
            EffectModel::Infer {
                stream: sender,
                audio: base64_standard(wav_file(samples)),
                is_streaming,
            },
        ]
    }
}

/// The effects of the end of an inference call: the transcript to every
/// connection when the call succeeded and its result is accepted, else
/// nothing.
pub open spec fn inference_effects(
    a: ActorModel,
    outcome: Option<crate::pipeline::WhisperResponseModel>,
    audio: Seq<char>,
    is_streaming: bool,
    t: crate::scorer::Thresholds,
) -> Seq<EffectModel> {
    match outcome {
        Some(response) if rejection_of(response, t) is None => seq![
            EffectModel::Broadcast {
                streams: streams_of(a.connections),
                payload: PayloadModel::Transcription(
                    accepted_transcript(response, audio, is_streaming),
                ),
            },
        ],
        _ => Seq::empty(),
    }
}

/// The state after the connection with this stream handle is gone.
pub open spec fn detached(a: ActorModel, stream: u64) -> ActorModel {
    ActorModel { connections: without_stream(a.connections, stream), ..a }
}

/// The effects of losing a connection: the close, where the actor itself
/// gives the connection up, and the presence update to those that remain.
/// An unknown stream handle has no effect.
pub open spec fn detach_effects(a: ActorModel, stream: u64, close: bool) -> Seq<EffectModel> {
    if has_stream(a.connections, stream) {
        (if close {
            seq![EffectModel::Close { stream }]
        } else {
            Seq::empty()
        }) + seq![presence_effect(detached(a, stream).connections)]
    } else {
        Seq::empty()
    }
}

/// The state after the connection with this stream handle answered a ping.
pub open spec fn ponged(a: ActorModel, stream: u64, now: u64) -> ActorModel {
    ActorModel {
        connections: match entry_of_stream(a.connections, stream) {
            Some(c) => a.connections.update(
                position_of_stream(a.connections, stream),
                ConnectionModel { last_pong_received_at: now, ..c },
            ),
            None => a.connections,
        },
        ..a
    }
}

/// The state after a tick of the heartbeat loop of this generation: a live
/// loop sweeps the registry, any other loop changes nothing.
pub open spec fn ticked(a: ActorModel, generation: u64, now: u64, config: LivenessConfig) -> ActorModel {
    if a.loop_is_live(generation) {
        ActorModel { connections: survivors(a.connections, a.connections.len(), now, config), ..a }
    } else {
        a
    }
}

/// One close per stream handle.
pub open spec fn close_effects(streams: Seq<u64>) -> Seq<EffectModel> {
    Seq::new(streams.len(), |i: int| EffectModel::Close { stream: streams[i] })
}

/// One ping per stream handle.
pub open spec fn ping_effects(streams: Seq<u64>) -> Seq<EffectModel> {
    Seq::new(streams.len(), |i: int| EffectModel::Ping { stream: streams[i] })
}

/// The presence update after a sweep, if it evicted anyone.
pub open spec fn sweep_presence(evicted: Seq<u64>, after: Seq<ConnectionModel>) -> Seq<EffectModel> {
    if evicted.len() > 0 {
        seq![presence_effect(after)]
    } else {
        Seq::empty()
    }
}

/// The periodic payload of a tick: the time, to every surviving
/// connection, where the configuration asks for it.
pub open spec fn clock_effects(after: Seq<ConnectionModel>, now: u64, config: LivenessConfig) -> Seq<
    EffectModel,
> {
    if config.broadcast_clock && after.len() > 0 {
        seq![
            EffectModel::Broadcast {
                streams: streams_of(after),
                payload: PayloadModel::Clock { utc_ms: now },
            },
        ]
    } else {
        Seq::empty()
    }
}

/// The effects of a tick of the heartbeat loop of this generation, in
/// order: the closes of the connections that timed out, the pings that are
/// due, the presence update if anyone was evicted, and the periodic
/// payload. A loop that is not live has no effect.
pub open spec fn tick_effects(a: ActorModel, generation: u64, now: u64, config: LivenessConfig) -> Seq<
    EffectModel,
> {
    if a.loop_is_live(generation) {
        let n = a.connections.len();
        let after = survivors(a.connections, n, now, config);
        let evicted = evicted_streams(a.connections, n, now, config);
        close_effects(evicted) + ping_effects(pinged_streams(a.connections, n, now, config))
            + sweep_presence(evicted, after) + clock_effects(after, now, config)
    } else {
        Seq::empty()
    }
}

/// A request to attach a connection.
#[derive(Debug, PartialEq, Eq)]
pub struct ConnectRequest {
    /// The value of the `Upgrade` header, if the request has one.
    pub upgrade: Option<String>,
    /// The id the client wants to be known by, if it supplied one.
    pub client_id: Option<String>,
}

/// The request asks for a connection upgrade: it names the protocol
/// `websocket`, in any case of the letters.
pub open spec fn is_upgrade(upgrade: Option<Seq<char>>) -> bool {
    upgrade matches Some(protocol) && equal_ignoring_ascii_case(protocol, "websocket"@)
}

/// Whether a request with this `Upgrade` header asks for a connection
/// upgrade.
pub fn is_upgrade_request(upgrade: &Option<String>) -> (b: bool)
    ensures
        b == is_upgrade(upgrade.deep_view()),
{
    match upgrade {
        Some(protocol) => same_text_ignoring_ascii_case(protocol.as_str(), "websocket"),
        None => false,
    }
}

/// Why a connection was not attached.
#[derive(Debug, PartialEq, Eq, Clone, Copy)]
pub enum ConnectError {
    /// The request is not a connection upgrade.
    UpgradeRequired,
    /// Every stream handle has been issued.
    Exhausted,
}

/// A write to the durable store failed: the control message is not stored
/// and nobody was told of it.
#[derive(Debug, PartialEq, Eq, Clone, Copy)]
pub struct WriteFailed;

impl ConnectError {
    /// The text that answers the request.
    pub fn message(&self) -> (text: &'static str)
        ensures
            text@ == match self {
                ConnectError::UpgradeRequired => "Expected Upgrade: websocket"@,
                ConnectError::Exhausted => "No stream handle left"@,
            },
    {
        match self {
            ConnectError::UpgradeRequired => "Expected Upgrade: websocket",
            ConnectError::Exhausted => "No stream handle left",
        }
    }

    /// The status code that answers the request.
    pub fn status(&self) -> (code: u16)
        ensures
            code == match self {
                ConnectError::UpgradeRequired => 426u16,
                ConnectError::Exhausted => 503u16,
            },
    {
        match self {
            ConnectError::UpgradeRequired => 426,
            ConnectError::Exhausted => 503,
        }
    }
}

/// An attached connection and what its arrival sets off.
#[derive(Debug, PartialEq, Eq)]
pub struct Admission {
    /// The id the connection is registered under.
    pub id: String,
    /// The handle under which the host keeps the channel.
    pub stream: u64,
    /// What the host has to do, in order.
    pub effects: Vec<Effect>,
}

/// The result of one heartbeat tick.
#[derive(Debug, PartialEq, Eq)]
pub struct Tick {
    /// What the host has to do, in order.
    pub effects: Vec<Effect>,
    /// Whether the loop goes on; when false it ends here.
    pub reschedule: bool,
}

/// The session actor of one identity.
#[derive(Debug)]
pub struct SessionActor {
    registry: Registry,
    store: ControlStore,
    generation: u64,
    liveness: LivenessConfig,
    scorer: ScorerConfig,
}

impl View for SessionActor {
    type V = ActorModel;

    closed spec fn view(&self) -> ActorModel {
        ActorModel {
            connections: self.registry@,
            next_stream: self.registry.next_stream(),
            controls: self.store@,
            generation: self.generation,
        }
    }
}

/// Appends the replay of the stored controls to `effects`.
fn push_replay(effects: &mut Vec<Effect>, stream: u64, controls: &Vec<ControlMessage>)
    ensures
        final(effects).deep_view() == old(effects).deep_view() + replay_effects(
            stream,
            controls.deep_view(),
        ),
{
    let ghost start = effects.deep_view();
    let ghost all = replay_effects(stream, controls.deep_view());
    let mut i: usize = 0;
    assert(effects.deep_view() =~= start + all.take(0));
    while i < controls.len()
        invariant
            i <= controls.len(),
            all == replay_effects(stream, controls.deep_view()),
            effects.deep_view() == start + all.take(i as int),
        decreases controls.len() - i,
    {
        let ghost prior = effects.deep_view();
        effects.push(Effect::Send { stream, payload: Payload::Control(controls[i].clone()) });
        assert(effects.deep_view() =~= prior.push(all[i as int]));
        i = i + 1;
        assert(start + all.take(i as int) =~= (start + all.take(i - 1)).push(all[i - 1]));
    }
    assert(all.take(i as int) =~= all);
}

/// Appends one close per stream handle to `effects`.
fn push_closes(effects: &mut Vec<Effect>, streams: &Vec<u64>)
    ensures
        final(effects).deep_view() == old(effects).deep_view() + close_effects(streams@),
{
    let ghost start = effects.deep_view();
    let ghost all = close_effects(streams@);
    let mut i: usize = 0;
    assert(effects.deep_view() =~= start + all.take(0));
    while i < streams.len()
        invariant
            i <= streams.len(),
            all == close_effects(streams@),
            effects.deep_view() == start + all.take(i as int),
        decreases streams.len() - i,
    {
        let ghost prior = effects.deep_view();
        effects.push(Effect::Close { stream: streams[i] });
        assert(effects.deep_view() =~= prior.push(all[i as int]));
        i = i + 1;
        assert(start + all.take(i as int) =~= (start + all.take(i - 1)).push(all[i - 1]));
    }
    assert(all.take(i as int) =~= all);
}

/// Appends one ping per stream handle to `effects`.
fn push_pings(effects: &mut Vec<Effect>, streams: &Vec<u64>)
    ensures
        final(effects).deep_view() == old(effects).deep_view() + ping_effects(streams@),
{
    let ghost start = effects.deep_view();
    let ghost all = ping_effects(streams@);
    let mut i: usize = 0;
    assert(effects.deep_view() =~= start + all.take(0));
    while i < streams.len()
        invariant
            i <= streams.len(),
            all == ping_effects(streams@),
            effects.deep_view() == start + all.take(i as int),
        decreases streams.len() - i,
    {
        let ghost prior = effects.deep_view();
        effects.push(Effect::Ping { stream: streams[i] });
        assert(effects.deep_view() =~= prior.push(all[i as int]));
        i = i + 1;
        assert(start + all.take(i as int) =~= (start + all.take(i - 1)).push(all[i - 1]));
    }
    assert(all.take(i as int) =~= all);
}

impl SessionActor {
    /// A new actor: idle, with an empty registry and an empty store.
    pub fn new(liveness: LivenessConfig, scorer: ScorerConfig) -> (actor: SessionActor)
        ensures
            actor@ == initial(),
            actor@.consistent(),
            actor.liveness() == liveness,
            actor.scorer() == scorer@,
    {
        SessionActor {
            registry: Registry::new(),
            store: ControlStore::new(),
            generation: 0,
            liveness,
            scorer,
        }
    }

    /// The timing of the heartbeat.
    pub closed spec fn liveness(&self) -> LivenessConfig {
        self.liveness
    }

    /// The thresholds of the confidence scorer.
    pub closed spec fn scorer(&self) -> crate::scorer::Thresholds {
        self.scorer@
    }

    /// Witnesses that the state of the actor is consistent: ids and stream
    /// handles are unique, and each control name is stored once. Does
    /// nothing at run time.
    pub fn check_consistency(&self)
        ensures
            self@.consistent(),
    {
        let _ = self.registry.all();
        let _ = self.store.entries();
    }

    /// Number of attached connections.
    pub fn count(&self) -> (n: usize)
        ensures
            n == self@.connections.len(),
    {
        self.registry.count()
    }

    /// The state of the lifecycle: active exactly when a connection is
    /// attached.
    pub fn phase(&self) -> (phase: Phase)
        ensures
            phase == self@.phase(),
    {
        if self.registry.is_empty() {
            Phase::Idle
        } else {
            Phase::Active
        }
    }

    /// Whether the heartbeat runs: exactly when the registry is not empty.
    pub fn heartbeat_running(&self) -> (running: bool)
        ensures
            running == (self@.connections.len() > 0),
            running == (self@.phase() == Phase::Active),
    {
        !self.registry.is_empty()
    }

    /// The generation of the heartbeat loop that was started last.
    pub fn generation(&self) -> (generation: u64)
        ensures
            generation == self@.generation,
    {
        self.generation
    }

    /// The attached connections.
    pub fn connections(&self) -> (conns: &Vec<ClientConnection>)
        ensures
            conns.deep_view() == self@.connections,
    {
        self.registry.all()
    }

    /// The stored control messages.
    pub fn controls(&self) -> (controls: &Vec<ControlMessage>)
        ensures
            controls.deep_view() == self@.controls,
    {
        self.store.entries()
    }

    /// Attaches a connection under `id`.
    ///
    /// A connection that already has this id is probed and evicted: the
    /// last connect wins. The new connection gets every stored control, all
    /// connections get the new presence count, and the heartbeat starts if
    /// the registry was empty. Fails, and changes nothing, only when every
    /// stream handle has been issued.
    pub fn attach(&mut self, id: String, now: u64) -> (admission: Result<Admission, ConnectError>)
        ensures
            old(self)@.next_stream == u64::MAX <==> admission is Err,
            admission is Err ==> admission == Err::<Admission, ConnectError>(
                ConnectError::Exhausted,
            ) && final(self)@ == old(self)@,
            admission matches Ok(a) ==> {
                &&& a.id@ == id@
                &&& a.stream == old(self)@.next_stream
                &&& final(self)@ == attached(old(self)@, id@, now)
                &&& a.effects.deep_view() == attach_effects(old(self)@, id@, now)
            },
            final(self)@.consistent(),
            final(self).liveness() == old(self).liveness(),
            final(self).scorer() == old(self).scorer(),
    {
        let ghost before = self@;
        let was_idle = self.registry.is_empty();
        let name = id.clone();
        let (stream, evicted) = match self.registry.add(id, now) {
            Some(outcome) => outcome,
            None => {
                self.check_consistency();
                return Err(ConnectError::Exhausted);
            },
        };
        if was_idle {
            self.generation = if self.generation == u64::MAX {
                0
            } else {
                self.generation + 1
            };
        }
        assert(self@ == attached(before, name@, now));
        let mut effects: Vec<Effect> = Vec::new();
        match evicted {
            Some(prior) => {
                effects.push(Effect::Ping { stream: prior.stream });
                effects.push(Effect::Close { stream: prior.stream });
            },
            None => {},
        }
        assert(effects.deep_view() =~= eviction_effects(entry_of_id(before.connections, name@)));
        push_replay(&mut effects, stream, self.store.entries());
        let ghost replayed = effects.deep_view();
        effects.push(
            Effect::Broadcast {
                streams: self.registry.streams(),
                payload: Payload::Presence { count: self.registry.count() },
            },
        );
        let ghost announced = effects.deep_view();
        assert(announced =~= replayed + seq![presence_effect(self@.connections)]);
        if was_idle {
            effects.push(Effect::StartHeartbeat { generation: self.generation });
        }
        assert(effects.deep_view() =~= announced + start_effects(before, self@));
        self.check_consistency();
        Ok(Admission { id: name, stream, effects })
    }

    /// An actor that starts again after an eviction of its host: idle, with
    /// the controls that the durable store holds.
    pub fn restore(
        liveness: LivenessConfig,
        scorer: ScorerConfig,
        persisted: Vec<ControlMessage>,
    ) -> (actor: SessionActor)
        ensures
            actor@ == restarted(persisted.deep_view()),
            actor@.consistent(),
            actor.liveness() == liveness,
            actor.scorer() == scorer@,
    {
        let actor = SessionActor {
            registry: Registry::new(),
            store: ControlStore::restore(persisted),
            generation: 0,
            liveness,
            scorer,
        };
        actor.check_consistency();
        actor
    }

    /// An actor that wakes up with its connections still attached: with
    /// the controls that the durable store holds, these connections, this
    /// next stream handle and this heartbeat generation. Refused unless the
    /// ids and the stream handles of the connections are unique and below
    /// the next handle.
    pub fn resume(
        liveness: LivenessConfig,
        scorer: ScorerConfig,
        persisted: Vec<ControlMessage>,
        connections: Vec<ClientConnection>,
        next_stream: u64,
        generation: u64,
    ) -> (actor: Option<SessionActor>)
        ensures
            actor is Some <==> well_formed(connections.deep_view(), next_stream),
            actor matches Some(a) ==> {
                &&& a@ == (ActorModel {
                    connections: connections.deep_view(),
                    next_stream,
                    controls: written_all(persisted.deep_view(), persisted.len() as nat),
                    generation,
                })
                &&& a@.consistent()
                &&& a.liveness() == liveness
                &&& a.scorer() == scorer@
            },
    {
        match Registry::resume(connections, next_stream) {
            None => None,
            Some(registry) => {
                let actor = SessionActor {
                    registry,
                    store: ControlStore::restore(persisted),
                    generation,
                    liveness,
                    scorer,
                };
                actor.check_consistency();
                Some(actor)
            },
        }
    }

    /// Handles a request to attach a connection.
    ///
    /// A request that is not a connection upgrade is rejected with a
    /// protocol error and changes nothing. Otherwise the connection is
    /// attached under the id that the client supplied, or under a derived
    /// id if it supplied none: `conn-` and its stream handle, with
    /// underscores behind it where an attached connection holds that text
    /// already. A connection without an id therefore evicts nobody.
    pub fn connect(&mut self, request: ConnectRequest, now: u64) -> (admission: Result<
        Admission,
        ConnectError,
    >)
        ensures
            !is_upgrade(request.upgrade.deep_view()) ==> admission == Err::<Admission, ConnectError>(
                ConnectError::UpgradeRequired,
            ) && final(self)@ == old(self)@,
            is_upgrade(request.upgrade.deep_view()) && old(self)@.next_stream == u64::MAX
                ==> admission == Err::<Admission, ConnectError>(ConnectError::Exhausted)
                && final(self)@ == old(self)@,
            is_upgrade(request.upgrade.deep_view()) && old(self)@.next_stream < u64::MAX
                ==> admission is Ok,
            admission matches Ok(a) ==> {
                let id = connect_id(old(self)@, request.client_id.deep_view());
                &&& a.id@ == id
                &&& a.stream == old(self)@.next_stream
                &&& final(self)@ == attached(old(self)@, id, now)
                &&& a.effects.deep_view() == attach_effects(old(self)@, id, now)
            },
            final(self)@.consistent(),
            final(self).liveness() == old(self).liveness(),
            final(self).scorer() == old(self).scorer(),
    {
        if !is_upgrade_request(&request.upgrade) {
            self.check_consistency();
            return Err(ConnectError::UpgradeRequired);
        }
        let id = match request.client_id {
            Some(id) => id,
            None => {
                proof {
                    reveal_strlit("conn-");
                }
                let prefix = String::from_str("conn-");
                assert(prefix@ =~= seq!['c', 'o', 'n', 'n', '-']);
                let candidate = prefix.concat(
                    format_decimal(self.registry.next_handle()).as_str(),
                );
                self.registry.unused_id(candidate)
            },
        };
        self.attach(id, now)
    }

    /// Handles a text message from the connection `sender`.
    ///
    /// `parsed` is the control message that the text holds, or `None` when
    /// the text is not a control message: such a text is dropped, and the
    /// connection stays. A control message is first written to the durable
    /// store; the actor itself changes only when the outcome of that write
    /// is reported to `handle_persisted`.
    pub fn handle_control(&self, sender: u64, parsed: Option<ControlMessage>) -> (effects: Vec<
        Effect,
    >)
        ensures
            parsed is None ==> effects.deep_view() == Seq::<EffectModel>::empty(),
            parsed matches Some(m) ==> effects.deep_view() == control_effects(sender, m@),
    {
        let mut effects: Vec<Effect> = Vec::new();
        match parsed {
            None => {
                assert(effects.deep_view() =~= Seq::<EffectModel>::empty());
            },
            Some(message) => {
                let ghost m = message@;
                let key = storage_key_for(message.control_name.as_str());
                effects.push(Effect::Persist { key, message, sender });
                assert(effects.deep_view() =~= control_effects(sender, m));
            },
        }
        effects
    }

    /// Handles the end of the durable write of a control message from
    /// `sender`.
    ///
    /// Where the message was written, it enters the store under its name,
    /// last writer wins, and goes to every connection but the sender. Where
    /// the write failed, nothing changes and nobody is sent the message:
    /// the failure is the error of the actor, and the store never holds a
    /// value that the durable store does not.
    pub fn handle_persisted(&mut self, sender: u64, message: ControlMessage, written: bool) -> (outcome:
        Result<Vec<Effect>, WriteFailed>)
        ensures
            outcome is Ok <==> written,
            final(self)@ == persisted(old(self)@, message@, written),
            outcome matches Ok(effects) ==> effects.deep_view() == persisted_effects(
                old(self)@,
                sender,
                message@,
                written,
            ),
            final(self)@.consistent(),
            final(self).liveness() == old(self).liveness(),
            final(self).scorer() == old(self).scorer(),
    {
        if !written {
            self.check_consistency();
            return Err(WriteFailed);
        }
        let ghost before = self@;
        let streams = self.registry.streams_except(sender);
        self.store.put(message.clone());
        let mut effects: Vec<Effect> = Vec::new();
        effects.push(Effect::Broadcast { streams, payload: Payload::Control(message) });
        assert(effects.deep_view() =~= persisted_effects(before, sender, message@, true));
        self.check_consistency();
        Ok(effects)
    }

    /// Handles a binary message from the connection `sender`: an audio
    /// frame. An empty frame, silence, and a frame that does not fit the
    /// container are dropped without an inference call.
    pub fn handle_audio(&self, sender: u64, audio_samples: &[u8], is_streaming: bool) -> (effects:
        Vec<Effect>)
        ensures
            effects.deep_view() == audio_effects(
                sender,
                audio_samples@,
                is_streaming,
                self.scorer(),
            ),
            crate::energy::all_zero(audio_samples@) ==> effects.deep_view() == Seq::<
                EffectModel,
            >::empty(),
    {
        let mut effects: Vec<Effect> = Vec::new();
        match prepare_audio(audio_samples, &self.scorer) {
            Submission::Skip(_) => {
                assert(effects.deep_view() =~= Seq::<EffectModel>::empty());
            },
            Submission::Infer { audio } => {
                effects.push(Effect::Infer { stream: sender, audio, is_streaming });
                assert(effects.deep_view() =~= audio_effects(
                    sender,
                    audio_samples@,
                    is_streaming,
                    self.scorer(),
                ));
            },
        }
        effects
    }

    /// Handles the end of an inference call on `audio`.
    ///
    /// `outcome` is the parsed result, or `None` when the call failed or
    /// its result could not be parsed: such an outcome is swallowed. A
    /// result that the scorer accepts goes to every connection, the sender
    /// included.
    pub fn handle_inference(
        &self,
        outcome: Option<WhisperResponse>,
        audio: String,
        is_streaming: bool,
    ) -> (effects: Vec<Effect>)
        ensures
            effects.deep_view() == inference_effects(
                self@,
                outcome.deep_view(),
                audio@,
                is_streaming,
                self.scorer(),
            ),
    {
        let mut effects: Vec<Effect> = Vec::new();
        assert(effects.deep_view() =~= Seq::<EffectModel>::empty());
        match outcome {
            None => {},
            Some(response) => {
                match assess_transcription(response, audio, is_streaming, &self.scorer) {
                    Verdict::Discard(_) => {},
                    Verdict::Broadcast(result) => {
                        let ghost expected = inference_effects(
                            self@,
                            outcome.deep_view(),
                            audio@,
                            is_streaming,
                            self.scorer(),
                        );
                        effects.push(
                            Effect::Broadcast {
                                streams: self.registry.streams(),
                                payload: Payload::Transcription(result),
                            },
                        );
                        assert(effects.deep_view() =~= expected);
                    },
                }
            },
        }
        effects
    }

    /// Notes that the connection with this stream handle answered a ping.
    pub fn handle_pong(&mut self, stream: u64, now: u64)
        ensures
            final(self)@ == ponged(old(self)@, stream, now),
            final(self)@.consistent(),
            final(self).liveness() == old(self).liveness(),
            final(self).scorer() == old(self).scorer(),
    {
        self.registry.record_pong(stream, now);
        self.check_consistency();
    }

    /// Handles the close of a connection by its peer: the connection leaves
    /// the registry and the others get the new presence count. When the
    /// last connection leaves, the actor is idle and a later tick ends the
    /// heartbeat loop.
    pub fn disconnect(&mut self, stream: u64) -> (effects: Vec<Effect>)
        ensures
            final(self)@ == detached(old(self)@, stream),
            effects.deep_view() == detach_effects(old(self)@, stream, false),
            final(self)@.consistent(),
            final(self).liveness() == old(self).liveness(),
            final(self).scorer() == old(self).scorer(),
    {
        self.detach(stream, false)
    }

    /// Handles a failed send or ping: a liveness failure. The connection is
    /// closed and leaves the registry, and the others get the new presence
    /// count. No other connection is affected.
    pub fn send_failed(&mut self, stream: u64) -> (effects: Vec<Effect>)
        ensures
            final(self)@ == detached(old(self)@, stream),
            effects.deep_view() == detach_effects(old(self)@, stream, true),
            final(self)@.consistent(),
            final(self).liveness() == old(self).liveness(),
            final(self).scorer() == old(self).scorer(),
    {
        self.detach(stream, true)
    }

    fn detach(&mut self, stream: u64, close: bool) -> (effects: Vec<Effect>)
        ensures
            final(self)@ == detached(old(self)@, stream),
            effects.deep_view() == detach_effects(old(self)@, stream, close),
            final(self)@.consistent(),
            final(self).liveness() == old(self).liveness(),
            final(self).scorer() == old(self).scorer(),
    {
        let ghost before = self@;
        let mut effects: Vec<Effect> = Vec::new();
        match self.registry.remove_stream(stream) {
            None => {
                assert(effects.deep_view() =~= Seq::<EffectModel>::empty());
            },
            Some(_) => {
                if close {
                    effects.push(Effect::Close { stream });
                }
                let ghost closed = effects.deep_view();
                effects.push(
                    Effect::Broadcast {
                        streams: self.registry.streams(),
                        payload: Payload::Presence { count: self.registry.count() },
                    },
                );
                assert(effects.deep_view() =~= detach_effects(before, stream, close));
            },
        }
        self.check_consistency();
        effects
    }

    /// One tick of the heartbeat loop of generation `generation`.
    ///
    /// A loop that is not the one started last, or that finds the registry
    /// empty, ends here and changes nothing. Otherwise every connection
    /// whose last pong is older than the timeout is evicted, every other
    /// connection whose last ping is older than the interval is pinged, the
    /// survivors learn the new presence count if anyone was evicted, and
    /// they get the time if the configuration asks for it. The loop goes
    /// on exactly when a connection survives.
    pub fn tick(&mut self, generation: u64, now: u64) -> (tick: Tick)
        ensures
            final(self)@ == ticked(old(self)@, generation, now, old(self).liveness()),
            tick.effects.deep_view() == tick_effects(
                old(self)@,
                generation,
                now,
                old(self).liveness(),
            ),
            tick.reschedule == final(self)@.loop_is_live(generation),
            tick.reschedule == (old(self)@.loop_is_live(generation) && final(self)@.connections.len()
                > 0),
            final(self)@.consistent(),
            final(self).liveness() == old(self).liveness(),
            final(self).scorer() == old(self).scorer(),
    {
        let ghost before = self@;
        let mut effects: Vec<Effect> = Vec::new();
        if generation != self.generation || self.registry.is_empty() {
            assert(effects.deep_view() =~= Seq::<EffectModel>::empty());
            self.check_consistency();
            return Tick { effects, reschedule: false };
        }
        let config = self.liveness;
        let sweep = self.registry.sweep(now, &config);
        let ghost after = self@.connections;
        push_closes(&mut effects, &sweep.evicted);
        push_pings(&mut effects, &sweep.pinged);
        let ghost swept = effects.deep_view();
        if sweep.evicted.len() > 0 {
            effects.push(
                Effect::Broadcast {
                    streams: self.registry.streams(),
                    payload: Payload::Presence { count: self.registry.count() },
                },
            );
        }
        let ghost announced = effects.deep_view();
        assert(announced =~= swept + sweep_presence(sweep.evicted@, after));
        let reschedule = !self.registry.is_empty();
        if config.broadcast_clock && reschedule {
            effects.push(
                Effect::Broadcast {
                    streams: self.registry.streams(),
                    payload: Payload::Clock { utc_ms: now },
                },
            );
        }
        assert(effects.deep_view() =~= announced + clock_effects(after, now, config));
        self.check_consistency();
        Tick { effects, reschedule }
    }

    /// The effect that sends a payload to every attached connection.
    pub fn broadcast(&self, payload: Payload) -> (effect: Effect)
        ensures
            effect@ == (EffectModel::Broadcast {
                streams: streams_of(self@.connections),
                payload: payload@,
            }),
    {
        Effect::Broadcast { streams: self.registry.streams(), payload }
    }

    /// Resets the whole actor: every stored control is forgotten. The
    /// connections stay.
    pub fn reset(&mut self)
        ensures
            final(self)@ == (ActorModel {
                controls: Seq::<ControlMessageModel>::empty(),
                ..old(self)@
            }),
            final(self)@.consistent(),
            final(self).liveness() == old(self).liveness(),
            final(self).scorer() == old(self).scorer(),
    {
        self.store.clear();
        self.check_consistency();
    }
}

} // verus!
