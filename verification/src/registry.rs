//! The connection registry of one actor: the set of attached client
//! connections, each with an id that is unique among them and a stream
//! handle that the registry issues.

use crate::liveness::{
    elapsed_ms, evicted_streams, lemma_sweep_partitions, pinged_streams, refreshed, survivors,
    ConnectionModel, LivenessConfig,
};
use crate::text::same_text;
use vstd::prelude::*;

verus! {

/// One attached client connection. The stream handle stands for the
/// bidirectional channel, which the caller keeps under that handle.
#[derive(Debug, PartialEq, Eq)]
pub struct ClientConnection {
    pub id: String,
    pub stream: u64,
    pub last_ping_sent_at: u64,
    pub last_pong_received_at: u64,
}

impl DeepView for ClientConnection {
    type V = ConnectionModel;

    open spec fn deep_view(&self) -> ConnectionModel {
        ConnectionModel {
            id: self.id@,
            stream: self.stream,
            last_ping_sent_at: self.last_ping_sent_at,
            last_pong_received_at: self.last_pong_received_at,
        }
    }
}

impl View for ClientConnection {
    type V = ConnectionModel;

    open spec fn view(&self) -> ConnectionModel {
        self.deep_view()
    }
}

impl Clone for ClientConnection {
    fn clone(&self) -> (r: Self)
        ensures
            r == *self,
    {
        ClientConnection {
            id: self.id.clone(),
            stream: self.stream,
            last_ping_sent_at: self.last_ping_sent_at,
            last_pong_received_at: self.last_pong_received_at,
        }
    }
}

/// Some connection has this id.
pub open spec fn has_id(conns: Seq<ConnectionModel>, id: Seq<char>) -> bool {
    exists|k: int| 0 <= k < conns.len() && #[trigger] conns[k].id == id
}

/// The position of the connection with this id.
pub open spec fn position_of_id(conns: Seq<ConnectionModel>, id: Seq<char>) -> int
    recommends
        has_id(conns, id),
{
    choose|k: int| 0 <= k < conns.len() && #[trigger] conns[k].id == id
}

/// Some connection has this stream handle.
pub open spec fn has_stream(conns: Seq<ConnectionModel>, stream: u64) -> bool {
    exists|k: int| 0 <= k < conns.len() && #[trigger] conns[k].stream == stream
}

/// The position of the connection with this stream handle.
pub open spec fn position_of_stream(conns: Seq<ConnectionModel>, stream: u64) -> int
    recommends
        has_stream(conns, stream),
{
    choose|k: int| 0 <= k < conns.len() && #[trigger] conns[k].stream == stream
}

/// No two connections share an id.
pub open spec fn distinct_ids(conns: Seq<ConnectionModel>) -> bool {
    forall|i: int, j: int|
        0 <= i < j < conns.len() ==> #[trigger] conns[i].id != #[trigger] conns[j].id
}

/// No two connections share a stream handle.
pub open spec fn distinct_streams(conns: Seq<ConnectionModel>) -> bool {
    forall|i: int, j: int|
        0 <= i < j < conns.len() ==> #[trigger] conns[i].stream != #[trigger] conns[j].stream
}

/// Every stream handle in use was issued before `next`.
pub open spec fn streams_below(conns: Seq<ConnectionModel>, next: u64) -> bool {
    forall|i: int| 0 <= i < conns.len() ==> (#[trigger] conns[i]).stream < next
}

/// The connections are a valid registry content with `next` as the next
/// handle to issue.
pub open spec fn well_formed(conns: Seq<ConnectionModel>, next: u64) -> bool {
    &&& distinct_ids(conns)
    &&& distinct_streams(conns)
    &&& streams_below(conns, next)
}

/// The connections without the one that has this id, if any.
pub open spec fn without_id(conns: Seq<ConnectionModel>, id: Seq<char>) -> Seq<ConnectionModel> {
    if has_id(conns, id) {
        conns.remove(position_of_id(conns, id))
    } else {
        conns
    }
}

/// The connections without the one that has this stream handle, if any.
pub open spec fn without_stream(conns: Seq<ConnectionModel>, stream: u64) -> Seq<ConnectionModel> {
    if has_stream(conns, stream) {
        conns.remove(position_of_stream(conns, stream))
    } else {
        conns
    }
}

/// The connection with this id, if any.
pub open spec fn entry_of_id(conns: Seq<ConnectionModel>, id: Seq<char>) -> Option<
    ConnectionModel,
> {
    if has_id(conns, id) {
        Some(conns[position_of_id(conns, id)])
    } else {
        None
    }
}

/// The connection with this stream handle, if any.
pub open spec fn entry_of_stream(conns: Seq<ConnectionModel>, stream: u64) -> Option<
    ConnectionModel,
> {
    if has_stream(conns, stream) {
        Some(conns[position_of_stream(conns, stream)])
    } else {
        None
    }
}

/// A connection that was registered at `now` under this id and handle.
pub open spec fn fresh_connection(id: Seq<char>, stream: u64, now: u64) -> ConnectionModel {
    ConnectionModel { id, stream, last_ping_sent_at: now, last_pong_received_at: now }
}

/// The stream handles of the connections, in order.
pub open spec fn streams_of(conns: Seq<ConnectionModel>) -> Seq<u64> {
    Seq::new(conns.len(), |i: int| conns[i].stream)
}

/// Length of the longest id among the connections; zero where there is
/// none.
pub open spec fn longest_id(conns: Seq<ConnectionModel>) -> nat
    decreases conns.len(),
{
    if conns.len() == 0 {
        0
    } else {
        let rest = longest_id(conns.drop_last());
        if conns.last().id.len() > rest {
            conns.last().id.len()
        } else {
            rest
        }
    }
}

/// No id in use is longer than the longest.
pub proof fn lemma_longest_id_bounds(conns: Seq<ConnectionModel>, id: Seq<char>)
    requires
        has_id(conns, id),
    ensures
        id.len() <= longest_id(conns),
    decreases conns.len(),
{
    let k = position_of_id(conns, id);
    assert(conns[k].id == id);
    if k < conns.len() - 1 {
        let rest = conns.drop_last();
        assert(rest[k].id == id);
        lemma_longest_id_bounds(rest, id);
    }
}

/// The first id in the row `candidate`, `candidate_`, `candidate__`, ...
/// that no connection holds.
pub open spec fn free_id(conns: Seq<ConnectionModel>, candidate: Seq<char>) -> Seq<char>
    decreases longest_id(conns) + 1 - candidate.len(),
    via free_id_terminates
{
    if has_id(conns, candidate) {
        free_id(conns, candidate.push('_'))
    } else {
        candidate
    }
}

#[via_fn]
proof fn free_id_terminates(conns: Seq<ConnectionModel>, candidate: Seq<char>) {
    if has_id(conns, candidate) {
        lemma_longest_id_bounds(conns, candidate);
    }
}

/// A free id is held by no connection, and is the candidate itself where
/// that is free.
pub proof fn lemma_free_id_is_free(conns: Seq<ConnectionModel>, candidate: Seq<char>)
    ensures
        !has_id(conns, free_id(conns, candidate)),
        !has_id(conns, candidate) ==> free_id(conns, candidate) == candidate,
    decreases longest_id(conns) + 1 - candidate.len(),
{
    if has_id(conns, candidate) {
        lemma_longest_id_bounds(conns, candidate);
        lemma_free_id_is_free(conns, candidate.push('_'));
    }
}

/// Removing a connection keeps a registry content valid.
pub proof fn lemma_remove_keeps_well_formed(conns: Seq<ConnectionModel>, next: u64, k: int)
    requires
        well_formed(conns, next),
        0 <= k < conns.len(),
    ensures
        well_formed(conns.remove(k), next),
        !has_id(conns.remove(k), conns[k].id),
        !has_stream(conns.remove(k), conns[k].stream),
{
    let after = conns.remove(k);
    assert forall|i: int| 0 <= i < after.len() implies #[trigger] after[i] == conns[if i < k {
        i
    } else {
        i + 1
    }] by {}
    assert forall|i: int, j: int| 0 <= i < j < after.len() implies #[trigger] after[i].id
        != #[trigger] after[j].id by {
        let a = if i < k { i } else { i + 1 };
        let b = if j < k { j } else { j + 1 };
        assert(after[i] == conns[a] && after[j] == conns[b]);
        assert(conns[a].id != conns[b].id);
    }
    assert forall|i: int, j: int| 0 <= i < j < after.len() implies #[trigger] after[i].stream
        != #[trigger] after[j].stream by {
        let a = if i < k { i } else { i + 1 };
        let b = if j < k { j } else { j + 1 };
        assert(after[i] == conns[a] && after[j] == conns[b]);
        assert(conns[a].stream != conns[b].stream);
    }
    assert forall|i: int| 0 <= i < after.len() implies (#[trigger] after[i]).stream < next by {
        let a = if i < k { i } else { i + 1 };
        assert(after[i] == conns[a]);
    }
    assert forall|i: int| 0 <= i < after.len() implies #[trigger] after[i].id != conns[k].id by {
        let a = if i < k { i } else { i + 1 };
        assert(after[i] == conns[a]);
        if a < k {
            assert(conns[a].id != conns[k].id);
        } else {
            assert(conns[k].id != conns[a].id);
        }
    }
    assert forall|i: int| 0 <= i < after.len() implies #[trigger] after[i].stream
        != conns[k].stream by {
        let a = if i < k { i } else { i + 1 };
        assert(after[i] == conns[a]);
        if a < k {
            assert(conns[a].stream != conns[k].stream);
        } else {
            assert(conns[k].stream != conns[a].stream);
        }
    }
}

/// Adding a connection with an unused id and the next handle keeps a
/// registry content valid.
pub proof fn lemma_push_keeps_well_formed(conns: Seq<ConnectionModel>, next: u64, c: ConnectionModel)
    requires
        well_formed(conns, next),
        !has_id(conns, c.id),
        c.stream == next,
        next < u64::MAX,
    ensures
        well_formed(conns.push(c), (next + 1) as u64),
        has_id(conns.push(c), c.id),
        position_of_id(conns.push(c), c.id) == conns.len(),
{
    let after = conns.push(c);
    assert forall|i: int| 0 <= i < conns.len() implies #[trigger] after[i] == conns[i] by {}
    assert forall|i: int, j: int| 0 <= i < j < after.len() implies #[trigger] after[i].id
        != #[trigger] after[j].id by {
        if j == conns.len() {
            assert(conns[i].id != c.id);
        } else {
            assert(conns[i].id != conns[j].id);
        }
    }
    assert forall|i: int, j: int| 0 <= i < j < after.len() implies #[trigger] after[i].stream
        != #[trigger] after[j].stream by {
        if j == conns.len() {
            assert(conns[i].stream < next);
        } else {
            assert(conns[i].stream != conns[j].stream);
        }
    }
    assert forall|i: int| 0 <= i < after.len() implies (#[trigger] after[i]).stream < next + 1 by {
        if i < conns.len() {
            assert(conns[i].stream < next);
        }
    }
    assert(after[conns.len() as int].id == c.id);
    let p = position_of_id(after, c.id);
    assert(after[p].id == c.id);
    if p < conns.len() {
        assert(conns[p].id == c.id);
    }
}

/// The attached client connections of one actor.
#[derive(Debug)]
pub struct Registry {
    connections: Vec<ClientConnection>,
    next_stream: u64,
}

impl View for Registry {
    type V = Seq<ConnectionModel>;

    closed spec fn view(&self) -> Seq<ConnectionModel> {
        self.connections.deep_view()
    }
}

/// What a sweep of the registry did.
#[derive(Debug, PartialEq, Eq)]
pub struct Sweep {
    /// Handles of the connections that timed out and were removed.
    pub evicted: Vec<u64>,
    /// Handles of the surviving connections that are to be pinged.
    pub pinged: Vec<u64>,
}

impl Registry {
    #[verifier::type_invariant]
    spec fn valid(self) -> bool {
        well_formed(self.connections.deep_view(), self.next_stream)
    }

    /// The handle that the next connection will get.
    pub closed spec fn next_stream(&self) -> u64 {
        self.next_stream
    }

    /// A registry without connections.
    pub fn new() -> (registry: Registry)
        ensures
            registry@ == Seq::<ConnectionModel>::empty(),
            registry.next_stream() == 0,
    {
        let registry = Registry { connections: Vec::new(), next_stream: 0 };
        assert(registry.connections.deep_view() =~= Seq::<ConnectionModel>::empty());
        registry
    }

    /// A registry that takes up where an earlier one left off: with these
    /// connections and this next handle. Refused unless the ids and the
    /// stream handles are unique and every handle in use is below the next
    /// one.
    pub fn resume(connections: Vec<ClientConnection>, next_stream: u64) -> (registry: Option<
        Registry,
    >)
        ensures
            registry is Some <==> well_formed(connections.deep_view(), next_stream),
            registry matches Some(r) ==> r@ == connections.deep_view() && r.next_stream()
                == next_stream,
    {
        let ghost conns = connections.deep_view();
        let mut j: usize = 0;
        while j < connections.len()
            invariant
                j <= connections.len(),
                conns == connections.deep_view(),
                forall|b: int| 0 <= b < j ==> (#[trigger] conns[b]).stream < next_stream,
                forall|a: int, b: int|
                    0 <= a < b < j ==> #[trigger] conns[a].id != #[trigger] conns[b].id,
                forall|a: int, b: int|
                    0 <= a < b < j ==> #[trigger] conns[a].stream != #[trigger] conns[b].stream,
            decreases connections.len() - j,
        {
            if connections[j].stream >= next_stream {
                assert(!(conns[j as int].stream < next_stream));
                return None;
            }
            let mut i: usize = 0;
            while i < j
                invariant
                    i <= j < connections.len(),
                    conns == connections.deep_view(),
                    forall|a: int| 0 <= a < i ==> (#[trigger] conns[a]).id != conns[j as int].id,
                    forall|a: int|
                        0 <= a < i ==> (#[trigger] conns[a]).stream != conns[j as int].stream,
                decreases j - i,
            {
                if same_text(connections[i].id.as_str(), connections[j].id.as_str()) {
                    assert(conns[i as int].id == conns[j as int].id);
                    return None;
                }
                if connections[i].stream == connections[j].stream {
                    assert(conns[i as int].stream == conns[j as int].stream);
                    return None;
                }
                i = i + 1;
            }
            j = j + 1;
        }
        Some(Registry { connections, next_stream })
    }

    /// The handle that the next connection will get.
    pub fn next_handle(&self) -> (next: u64)
        ensures
            next == self.next_stream(),
    {
        self.next_stream
    }

    /// Number of attached connections.
    pub fn count(&self) -> (n: usize)
        ensures
            n == self@.len(),
    {
        self.connections.len()
    }

    /// Whether no connection is attached.
    pub fn is_empty(&self) -> (empty: bool)
        ensures
            empty == (self@.len() == 0),
    {
        self.connections.len() == 0
    }

    /// Every attached connection, each exactly once.
    pub fn all(&self) -> (conns: &Vec<ClientConnection>)
        ensures
            conns.deep_view() == self@,
            well_formed(self@, self.next_stream()),
    {
        proof {
            use_type_invariant(self);
        }
        &self.connections
    }

    /// The position of the connection with this id, if there is one.
    pub fn find_id(&self, id: &str) -> (found: Option<usize>)
        ensures
            found is Some <==> has_id(self@, id@),
            found matches Some(k) ==> k == position_of_id(self@, id@) && k < self@.len(),
    {
        proof {
            use_type_invariant(self);
        }
        let mut i: usize = 0;
        while i < self.connections.len()
            invariant
                i <= self.connections.len(),
                distinct_ids(self@),
                forall|j: int| 0 <= j < i ==> (#[trigger] self@[j]).id != id@,
            decreases self.connections.len() - i,
        {
            if same_text(self.connections[i].id.as_str(), id) {
                assert(self@[i as int].id == id@);
                let ghost p = position_of_id(self@, id@);
                assert(self@[p].id == id@);
                assert(p == i);
                return Some(i);
            }
            i = i + 1;
        }
        None
    }

    /// The position of the connection with this stream handle, if there is
    /// one.
    pub fn find_stream(&self, stream: u64) -> (found: Option<usize>)
        ensures
            found is Some <==> has_stream(self@, stream),
            found matches Some(k) ==> k == position_of_stream(self@, stream) && k < self@.len(),
    {
        proof {
            use_type_invariant(self);
        }
        let mut i: usize = 0;
        while i < self.connections.len()
            invariant
                i <= self.connections.len(),
                distinct_streams(self@),
                forall|j: int| 0 <= j < i ==> (#[trigger] self@[j]).stream != stream,
            decreases self.connections.len() - i,
        {
            if self.connections[i].stream == stream {
                assert(self@[i as int].stream == stream);
                let ghost p = position_of_stream(self@, stream);
                assert(self@[p].stream == stream);
                assert(p == i);
                return Some(i);
            }
            i = i + 1;
        }
        None
    }

    /// An id that no attached connection holds: `candidate`, followed by
    /// as few underscores as it takes.
    pub fn unused_id(&self, candidate: String) -> (id: String)
        ensures
            id@ == free_id(self@, candidate@),
            !has_id(self@, id@),
    {
        proof {
            lemma_free_id_is_free(self@, candidate@);
        }
        let mut id = candidate;
        while self.find_id(id.as_str()).is_some()
            invariant
                free_id(self@, id@) == free_id(self@, candidate@),
            decreases longest_id(self@) + 1 - id@.len(),
        {
            proof {
                lemma_longest_id_bounds(self@, id@);
                reveal_strlit("_");
            }
            let ghost before = id@;
            id = id.concat("_");
            assert(id@ =~= before.push('_'));
        }
        id
    }

    /// Whether a connection with this id is attached.
    pub fn contains(&self, id: &str) -> (present: bool)
        ensures
            present == has_id(self@, id@),
    {
        self.find_id(id).is_some()
    }

    /// Registers a connection under `id` and issues its stream handle.
    ///
    /// A connection that already has this id is removed first and handed
    /// back: the last connect wins. Returns `None`, and changes nothing,
    /// only when all handles have been issued.
    pub fn add(&mut self, id: String, now: u64) -> (outcome: Option<(u64, Option<ClientConnection>)>)
        ensures
            old(self).next_stream() == u64::MAX <==> outcome is None,
            outcome is None ==> final(self)@ == old(self)@ && final(self).next_stream() == old(
                self,
            ).next_stream(),
            outcome matches Some((stream, evicted)) ==> {
                &&& stream == old(self).next_stream()
                &&& final(self).next_stream() == stream + 1
                &&& final(self)@ == without_id(old(self)@, id@).push(
                    fresh_connection(id@, stream, now),
                )
                &&& evicted.deep_view() == entry_of_id(old(self)@, id@)
            },
    {
        proof {
            use_type_invariant(&*self);
        }
        if self.next_stream == u64::MAX {
            return None;
        }
        let ghost before = self@;
        let found = self.find_id(id.as_str());
        let stream = self.next_stream;
        let mut connections: Vec<ClientConnection> = Vec::new();
        std::mem::swap(&mut connections, &mut self.connections);
        let evicted = match found {
            Some(k) => {
                proof {
                    lemma_remove_keeps_well_formed(before, stream, k as int);
                }
                let prior = connections.remove(k);
                assert(connections.deep_view() =~= before.remove(k as int));
                Some(prior)
            },
            None => None,
        };
        let ghost base = connections.deep_view();
        let ghost fresh = fresh_connection(id@, stream, now);
        proof {
            assert(base == without_id(before, id@));
            lemma_push_keeps_well_formed(base, stream, fresh);
        }
        connections.push(
            ClientConnection { id, stream, last_ping_sent_at: now, last_pong_received_at: now },
        );
        assert(connections.deep_view() =~= base.push(fresh));
        self.next_stream = stream + 1;
        self.connections = connections;
        Some((stream, evicted))
    }

    /// Removes the connection with this id, if there is one, and hands it
    /// back.
    pub fn remove(&mut self, id: &str) -> (removed: Option<ClientConnection>)
        ensures
            final(self)@ == without_id(old(self)@, id@),
            removed.deep_view() == entry_of_id(old(self)@, id@),
            final(self).next_stream() == old(self).next_stream(),
    {
        match self.find_id(id) {
            Some(k) => Some(self.remove_at(k)),
            None => None,
        }
    }

    /// Removes the connection with this stream handle, if there is one, and
    /// hands it back.
    pub fn remove_stream(&mut self, stream: u64) -> (removed: Option<ClientConnection>)
        ensures
            final(self)@ == without_stream(old(self)@, stream),
            removed.deep_view() == entry_of_stream(old(self)@, stream),
            final(self).next_stream() == old(self).next_stream(),
    {
        match self.find_stream(stream) {
            Some(k) => Some(self.remove_at(k)),
            None => None,
        }
    }

    fn remove_at(&mut self, k: usize) -> (removed: ClientConnection)
        requires
            k < old(self)@.len(),
        ensures
            final(self)@ == old(self)@.remove(k as int),
            removed@ == old(self)@[k as int],
            final(self).next_stream() == old(self).next_stream(),
    {
        proof {
            use_type_invariant(&*self);
            lemma_remove_keeps_well_formed(self@, self.next_stream, k as int);
        }
        let ghost before = self@;
        let mut connections: Vec<ClientConnection> = Vec::new();
        std::mem::swap(&mut connections, &mut self.connections);
        let removed = connections.remove(k);
        assert(connections.deep_view() =~= before.remove(k as int));
        self.connections = connections;
        removed
    }

    /// The stream handles of all connections, in order.
    pub fn streams(&self) -> (handles: Vec<u64>)
        ensures
            handles@ == streams_of(self@),
    {
        let mut handles: Vec<u64> = Vec::new();
        let mut i: usize = 0;
        while i < self.connections.len()
            invariant
                i <= self.connections.len(),
                handles@ == streams_of(self@).take(i as int),
            decreases self.connections.len() - i,
        {
            handles.push(self.connections[i].stream);
            i = i + 1;
            assert(handles@ =~= streams_of(self@).take(i as int));
        }
        assert(streams_of(self@).take(i as int) =~= streams_of(self@));
        handles
    }

    /// The stream handles of all connections but the one with this handle.
    pub fn streams_except(&self, stream: u64) -> (handles: Vec<u64>)
        ensures
            handles@ == streams_of(without_stream(self@, stream)),
    {
        proof {
            use_type_invariant(self);
        }
        let found = self.find_stream(stream);
        let ghost rest = without_stream(self@, stream);
        let mut handles: Vec<u64> = Vec::new();
        let mut i: usize = 0;
        while i < self.connections.len()
            invariant
                i <= self.connections.len(),
                found is Some <==> has_stream(self@, stream),
                found matches Some(k) ==> k == position_of_stream(self@, stream) && k < self@.len(),
                rest == without_stream(self@, stream),
                handles@ == streams_of(rest).take(
                    if found is Some && found->0 < i {
                        i - 1
                    } else {
                        i as int
                    },
                ),
            decreases self.connections.len() - i,
        {
            let skip = match found {
                Some(k) => k == i,
                None => false,
            };
            if !skip {
                handles.push(self.connections[i].stream);
            }
            i = i + 1;
            assert(handles@ =~= streams_of(rest).take(
                if found is Some && found->0 < i {
                    i - 1
                } else {
                    i as int
                },
            ));
        }
        assert(handles@ =~= streams_of(rest));
        handles
    }

    /// Notes that the connection with this stream handle answered at `now`.
    /// An unknown handle changes nothing.
    pub fn record_pong(&mut self, stream: u64, now: u64)
        ensures
            final(self).next_stream() == old(self).next_stream(),
            final(self)@ == match entry_of_stream(old(self)@, stream) {
                Some(c) => old(self)@.update(
                    position_of_stream(old(self)@, stream),
                    ConnectionModel { last_pong_received_at: now, ..c },
                ),
                None => old(self)@,
            },
    {
        proof {
            use_type_invariant(&*self);
        }
        let ghost before = self@;
        match self.find_stream(stream) {
            Some(k) => {
                let mut connections: Vec<ClientConnection> = Vec::new();
                std::mem::swap(&mut connections, &mut self.connections);
                let mut entry = connections[k].clone();
                entry.last_pong_received_at = now;
                let ghost after = before.update(k as int, entry@);
                connections.set(k, entry);
                assert(connections.deep_view() =~= after);
                proof {
                    assert forall|i: int| 0 <= i < after.len() implies #[trigger] after[i].id
                        == before[i].id && after[i].stream == before[i].stream by {}
                    assert(well_formed(after, self.next_stream)) by {
                        assert forall|i: int, j: int| 0 <= i < j < after.len() implies #[trigger] after[i].id
                            != #[trigger] after[j].id by {
                            assert(before[i].id != before[j].id);
                        }
                        assert forall|i: int, j: int|
                            0 <= i < j < after.len() implies #[trigger] after[i].stream
                            != #[trigger] after[j].stream by {
                            assert(before[i].stream != before[j].stream);
                        }
                        assert forall|i: int| 0 <= i < after.len() implies (#[trigger] after[i]).stream
                            < self.next_stream by {
                            assert(before[i].stream < self.next_stream);
                        }
                    }
                }
                self.connections = connections;
            },
            None => {},
        }
    }

    /// One pass of the liveness monitor at time `now`.
    ///
    /// A connection whose last pong is older than the timeout is removed.
    /// Every other connection stays, and is marked as pinged at `now` if
    /// its last ping is older than the ping interval. The result lists the
    /// handles to close and the handles to ping.
    pub fn sweep(&mut self, now: u64, config: &LivenessConfig) -> (sweep: Sweep)
        ensures
            final(self)@ == survivors(old(self)@, old(self)@.len(), now, *config),
            sweep.evicted@ == evicted_streams(old(self)@, old(self)@.len(), now, *config),
            sweep.pinged@ == pinged_streams(old(self)@, old(self)@.len(), now, *config),
            final(self).next_stream() == old(self).next_stream(),
            final(self)@.len() + sweep.evicted@.len() == old(self)@.len(),
    {
        proof {
            use_type_invariant(&*self);
            lemma_sweep_partitions(self@, self@.len(), now, *config);
        }
        let ghost before = self@;
        let ghost next = self.next_stream;
        let mut connections: Vec<ClientConnection> = Vec::new();
        std::mem::swap(&mut connections, &mut self.connections);
        let mut kept: Vec<ClientConnection> = Vec::new();
        let mut evicted: Vec<u64> = Vec::new();
        let mut pinged: Vec<u64> = Vec::new();
        let ghost mut origin: Seq<int> = Seq::empty();
        let mut i: usize = 0;
        assert(kept.deep_view() =~= survivors(before, 0, now, *config));
        while i < connections.len()
            invariant
                i <= connections.len(),
                connections.deep_view() == before,
                well_formed(before, next),
                kept.deep_view() == survivors(before, i as nat, now, *config),
                evicted@ == evicted_streams(before, i as nat, now, *config),
                pinged@ == pinged_streams(before, i as nat, now, *config),
                origin.len() == kept.len(),
                forall|a: int|
                    0 <= a < kept.len() ==> 0 <= #[trigger] origin[a] < i && kept.deep_view()[a].id
                        == before[origin[a]].id && kept.deep_view()[a].stream
                        == before[origin[a]].stream,
                forall|a: int, b: int|
                    0 <= a < b < kept.len() ==> #[trigger] origin[a] < #[trigger] origin[b],
            decreases connections.len() - i,
        {
            let entry = &connections[i];
            assert(entry@ == before[i as int]);
            if elapsed_ms(now, entry.last_pong_received_at) > config.pong_timeout_ms {
                evicted.push(entry.stream);
            } else {
                let due = elapsed_ms(now, entry.last_ping_sent_at) > config.ping_interval_ms;
                let mut copy = entry.clone();
                if due {
                    copy.last_ping_sent_at = now;
                    pinged.push(entry.stream);
                }
                assert(copy@ == refreshed(before[i as int], now, *config));
                let ghost prior = kept.deep_view();
                kept.push(copy);
                assert(kept.deep_view() =~= prior.push(refreshed(before[i as int], now, *config)));
                proof {
                    origin = origin.push(i as int);
                }
            }
            i = i + 1;
        }
        let ghost after = kept.deep_view();
        proof {
            assert forall|a: int, b: int| 0 <= a < b < after.len() implies #[trigger] after[a].id
                != #[trigger] after[b].id by {
                assert(origin[a] < origin[b]);
                assert(before[origin[a]].id != before[origin[b]].id);
            }
            assert forall|a: int, b: int| 0 <= a < b < after.len() implies #[trigger] after[a].stream
                != #[trigger] after[b].stream by {
                assert(origin[a] < origin[b]);
                assert(before[origin[a]].stream != before[origin[b]].stream);
            }
            assert forall|a: int| 0 <= a < after.len() implies (#[trigger] after[a]).stream
                < next by {
                assert(before[origin[a]].stream < next);
            }
        }
        self.connections = kept;
        Sweep { evicted, pinged }
    }
}

} // verus!
