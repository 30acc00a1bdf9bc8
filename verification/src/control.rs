//! Control messages and the store that replicates them to late joiners.
//!
//! A control message is a named value that any client may change. The store
//! keeps the last message written under each name.

use crate::text::same_text;
use vstd::prelude::*;

verus! {

/// The value of a control: a switch or a text.
#[derive(Debug, PartialEq, Eq)]
pub enum ControlValue {
    Bool(bool),
    Text(String),
}

/// Mathematical content of a `ControlValue`.
pub enum ControlValueModel {
    Bool(bool),
    Text(Seq<char>),
}

impl DeepView for ControlValue {
    type V = ControlValueModel;

    open spec fn deep_view(&self) -> ControlValueModel {
        match self {
            ControlValue::Bool(b) => ControlValueModel::Bool(*b),
            ControlValue::Text(t) => ControlValueModel::Text(t@),
        }
    }
}

impl View for ControlValue {
    type V = ControlValueModel;

    open spec fn view(&self) -> ControlValueModel {
        self.deep_view()
    }
}

impl Clone for ControlValue {
    fn clone(&self) -> (r: Self)
        ensures
            r == *self,
    {
        match self {
            ControlValue::Bool(b) => ControlValue::Bool(*b),
            ControlValue::Text(t) => ControlValue::Text(t.clone()),
        }
    }
}

/// A named, client-mutable value shared by all participants of a session.
#[derive(Debug, PartialEq, Eq)]
pub struct ControlMessage {
    pub control_name: String,
    pub control_value: ControlValue,
    pub control_type: String,
}

/// Mathematical content of a `ControlMessage`.
pub struct ControlMessageModel {
    pub name: Seq<char>,
    pub value: ControlValueModel,
    pub kind: Seq<char>,
}

impl DeepView for ControlMessage {
    type V = ControlMessageModel;

    open spec fn deep_view(&self) -> ControlMessageModel {
        ControlMessageModel {
            name: self.control_name@,
            value: self.control_value@,
            kind: self.control_type@,
        }
    }
}

impl View for ControlMessage {
    type V = ControlMessageModel;

    open spec fn view(&self) -> ControlMessageModel {
        self.deep_view()
    }
}

impl Clone for ControlMessage {
    fn clone(&self) -> (r: Self)
        ensures
            r == *self,
    {
        ControlMessage {
            control_name: self.control_name.clone(),
            control_value: self.control_value.clone(),
            control_type: self.control_type.clone(),
        }
    }
}

/// The prefix of every store key that holds a control: `control:`.
pub open spec fn key_prefix() -> Seq<char> {
    seq!['c', 'o', 'n', 't', 'r', 'o', 'l', ':']
}

/// The store key of the control called `name`.
pub open spec fn storage_key(name: Seq<char>) -> Seq<char> {
    key_prefix() + name
}

/// The store key of the control called `name`: `control:` and the name.
pub fn storage_key_for(name: &str) -> (key: String)
    ensures
        key@ == storage_key(name@),
{
    proof {
        reveal_strlit("control:");
    }
    let prefix = String::from_str("control:");
    assert(prefix@ =~= key_prefix());
    prefix.concat(name)
}

/// Some entry of `entries` is called `name`.
pub open spec fn has_name(entries: Seq<ControlMessageModel>, name: Seq<char>) -> bool {
    exists|k: int| 0 <= k < entries.len() && #[trigger] entries[k].name == name
}

/// The position of the entry called `name`.
pub open spec fn position_of(entries: Seq<ControlMessageModel>, name: Seq<char>) -> int
    recommends
        has_name(entries, name),
{
    choose|k: int| 0 <= k < entries.len() && #[trigger] entries[k].name == name
}

/// No two entries share a name.
pub open spec fn distinct_names(entries: Seq<ControlMessageModel>) -> bool {
    forall|i: int, j: int|
        0 <= i < j < entries.len() ==> #[trigger] entries[i].name != #[trigger] entries[j].name
}

/// The entries after `message` is written: it takes the place of the entry
/// of the same name, or goes to the end when the name is new.
pub open spec fn written(
    entries: Seq<ControlMessageModel>,
    message: ControlMessageModel,
) -> Seq<ControlMessageModel> {
    if has_name(entries, message.name) {
        entries.update(position_of(entries, message.name), message)
    } else {
        entries.push(message)
    }
}

/// The entries after the first `n` of `writes` were written in order to an
/// empty store.
pub open spec fn written_all(writes: Seq<ControlMessageModel>, n: nat) -> Seq<ControlMessageModel>
    recommends
        n <= writes.len(),
    decreases n,
{
    if n == 0 {
        Seq::empty()
    } else {
        written(written_all(writes, (n - 1) as nat), writes[n - 1])
    }
}

/// A write keeps the names distinct, stores the message under its name and
/// leaves every other name as it was.
pub proof fn lemma_written(entries: Seq<ControlMessageModel>, message: ControlMessageModel)
    requires
        distinct_names(entries),
    ensures
        distinct_names(written(entries, message)),
        has_name(written(entries, message), message.name),
        written(entries, message)[position_of(written(entries, message), message.name)] == message,
        forall|name: Seq<char>|
            name != message.name ==> (has_name(written(entries, message), name) <==> has_name(
                entries,
                name,
            )),
        forall|name: Seq<char>|
            name != message.name && has_name(entries, name) ==> written(
                entries,
                message,
            )[position_of(written(entries, message), name)] == entries[position_of(entries, name)],
        written(entries, message).len() == if has_name(entries, message.name) {
            entries.len()
        } else {
            entries.len() + 1
        },
{
    let after = written(entries, message);
    let k = if has_name(entries, message.name) {
        position_of(entries, message.name)
    } else {
        entries.len() as int
    };
    assert(after[k] == message);
    assert(after[k].name == message.name);
    assert(has_name(after, message.name));
    assert forall|i: int| 0 <= i < after.len() && i != k implies after[i] == entries[i] by {}
    assert forall|i: int, j: int| 0 <= i < j < after.len() implies #[trigger] after[i].name
        != #[trigger] after[j].name by {
        if i == k {
            assert(after[j] == entries[j]);
            if has_name(entries, message.name) {
                assert(entries[k].name == message.name);
            } else {
                assert(entries[j].name != message.name);
            }
        } else if j == k {
            assert(after[i] == entries[i]);
            if has_name(entries, message.name) {
                assert(entries[k].name == message.name);
            } else {
                assert(entries[i].name != message.name);
            }
        } else {
            assert(after[i] == entries[i]);
            assert(after[j] == entries[j]);
        }
    }
    let p = position_of(after, message.name);
    assert(after[p].name == after[k].name);
    assert(p == k);
    assert forall|name: Seq<char>| name != message.name implies (has_name(after, name)
        <==> has_name(entries, name)) by {
        if has_name(entries, name) {
            let i = position_of(entries, name);
            assert(entries[i].name == name);
            assert(i != k);
            assert(after[i].name == name);
        }
        if has_name(after, name) {
            let i = position_of(after, name);
            assert(after[i].name == name);
            assert(i != k);
            assert(entries[i].name == name);
        }
    }
    assert forall|name: Seq<char>| name != message.name && has_name(entries, name) implies after[position_of(
        after,
        name,
    )] == entries[position_of(entries, name)] by {
        let i = position_of(entries, name);
        assert(entries[i].name == name);
        assert(i != k);
        assert(after[i].name == name);
        let j = position_of(after, name);
        assert(after[j].name == name);
        assert(i == j);
    }
}

/// The last position among the first `n` writes at which `name` was
/// written.
pub open spec fn last_write_of(writes: Seq<ControlMessageModel>, n: nat, name: Seq<char>) -> int
    recommends
        n <= writes.len(),
    decreases n,
{
    if n == 0 {
        -1
    } else if writes[n - 1].name == name {
        n - 1
    } else {
        last_write_of(writes, (n - 1) as nat, name)
    }
}

/// After any sequence of writes the store holds every name that was written
/// exactly once, with the value of its last write, and nothing else.
pub proof fn lemma_store_holds_last_writes(writes: Seq<ControlMessageModel>, n: nat)
    requires
        n <= writes.len(),
    ensures
        distinct_names(written_all(writes, n)),
        forall|name: Seq<char>| #[trigger]
            has_name(written_all(writes, n), name) <==> last_write_of(writes, n, name) >= 0,
        forall|name: Seq<char>|
            last_write_of(writes, n, name) >= 0 ==> written_all(writes, n)[#[trigger] position_of(
                written_all(writes, n),
                name,
            )] == writes[last_write_of(writes, n, name)],
        forall|name: Seq<char>| -1 <= #[trigger] last_write_of(writes, n, name) < n,
    decreases n,
{
    if n == 0 {
        assert forall|name: Seq<char>| !has_name(written_all(writes, 0), name) by {}
    } else {
        let before = written_all(writes, (n - 1) as nat);
        let m = writes[n - 1];
        lemma_store_holds_last_writes(writes, (n - 1) as nat);
        lemma_written(before, m);
        let after = written_all(writes, n);
        assert(after == written(before, m));
        assert forall|name: Seq<char>| #[trigger]
            has_name(after, name) <==> last_write_of(writes, n, name) >= 0 by {
            if name != m.name {
                assert(has_name(before, name) <==> last_write_of(writes, (n - 1) as nat, name)
                    >= 0);
            }
        }
        assert forall|name: Seq<char>| last_write_of(writes, n, name) >= 0 implies after[#[trigger] position_of(
            after,
            name,
        )] == writes[last_write_of(writes, n, name)] by {
            if name != m.name {
                assert(has_name(before, name) <==> last_write_of(writes, (n - 1) as nat, name)
                    >= 0);
                assert(before[position_of(before, name)] == writes[last_write_of(
                    writes,
                    (n - 1) as nat,
                    name,
                )]);
            }
        }
        assert forall|name: Seq<char>| -1 <= #[trigger] last_write_of(writes, n, name) < n by {
            assert(-1 <= last_write_of(writes, (n - 1) as nat, name) < n - 1);
        }
    }
}

/// The last message written under each control name.
#[derive(Debug)]
pub struct ControlStore {
    entries: Vec<ControlMessage>,
}

impl View for ControlStore {
    type V = Seq<ControlMessageModel>;

    closed spec fn view(&self) -> Seq<ControlMessageModel> {
        self.entries.deep_view()
    }
}

impl ControlStore {
    #[verifier::type_invariant]
    spec fn names_are_distinct(self) -> bool {
        distinct_names(self.entries.deep_view())
    }

    /// A store without entries.
    pub fn new() -> (store: ControlStore)
        ensures
            store@ == Seq::<ControlMessageModel>::empty(),
    {
        let store = ControlStore { entries: Vec::new() };
        assert(store.entries.deep_view() =~= Seq::<ControlMessageModel>::empty());
        store
    }

    /// The store that results from writing `persisted` in order to an empty
    /// store: what a restarted actor reloads from the durable store.
    pub fn restore(persisted: Vec<ControlMessage>) -> (store: ControlStore)
        ensures
            store@ == written_all(persisted.deep_view(), persisted.len() as nat),
    {
        let ghost writes = persisted.deep_view();
        let mut store = ControlStore::new();
        let mut i: usize = 0;
        while i < persisted.len()
            invariant
                i <= persisted.len(),
                writes == persisted.deep_view(),
                store@ == written_all(writes, i as nat),
            decreases persisted.len() - i,
        {
            store.put(persisted[i].clone());
            i = i + 1;
        }
        store
    }

    /// Number of entries.
    pub fn len(&self) -> (n: usize)
        ensures
            n == self@.len(),
    {
        self.entries.len()
    }

    /// The position of the entry called `name`, if there is one.
    pub fn find(&self, name: &str) -> (found: Option<usize>)
        ensures
            found is Some <==> has_name(self@, name@),
            found matches Some(k) ==> k == position_of(self@, name@) && k < self@.len(),
    {
        proof {
            use_type_invariant(self);
        }
        let mut i: usize = 0;
        while i < self.entries.len()
            invariant
                i <= self.entries.len(),
                distinct_names(self@),
                forall|j: int| 0 <= j < i ==> (#[trigger] self@[j]).name != name@,
            decreases self.entries.len() - i,
        {
            if same_text(self.entries[i].control_name.as_str(), name) {
                assert(self@[i as int].name == name@);
                let ghost p = position_of(self@, name@);
                assert(self@[p].name == name@);
                assert(p == i);
                return Some(i);
            }
            i = i + 1;
        }
        None
    }

    /// The message stored under `name`, if there is one.
    pub fn get(&self, name: &str) -> (found: Option<&ControlMessage>)
        ensures
            found is Some <==> has_name(self@, name@),
            found matches Some(m) ==> m@ == self@[position_of(self@, name@)],
    {
        match self.find(name) {
            Some(k) => Some(&self.entries[k]),
            None => None,
        }
    }

    /// Writes a message under its name. The last writer wins: an earlier
    /// message of that name is replaced, and no other entry changes.
    pub fn put(&mut self, message: ControlMessage)
        ensures
            final(self)@ == written(old(self)@, message@),
    {
        proof {
            use_type_invariant(&*self);
            lemma_written(self@, message@);
        }
        let ghost before = self@;
        let ghost m = message@;
        let found = self.find(message.control_name.as_str());
        let mut entries: Vec<ControlMessage> = Vec::new();
        std::mem::swap(&mut entries, &mut self.entries);
        match found {
            Some(k) => {
                entries.set(k, message);
                assert(entries.deep_view() =~= before.update(k as int, m));
            },
            None => {
                entries.push(message);
                assert(entries.deep_view() =~= before.push(m));
            },
        }
        self.entries = entries;
    }

    /// Every stored message, each exactly once.
    pub fn entries(&self) -> (all: &Vec<ControlMessage>)
        ensures
            all.deep_view() == self@,
            distinct_names(self@),
    {
        proof {
            use_type_invariant(self);
        }
        &self.entries
    }

    /// The store keys in use: `control:` and the name, for each entry.
    pub fn keys(&self) -> (keys: Vec<String>)
        ensures
            keys.len() == self@.len(),
            forall|i: int| 0 <= i < keys.len() ==> (#[trigger] keys[i])@ == storage_key(self@[i].name),
    {
        let mut keys: Vec<String> = Vec::new();
        let mut i: usize = 0;
        while i < self.entries.len()
            invariant
                i <= self.entries.len(),
                keys.len() == i,
                forall|j: int| 0 <= j < i ==> (#[trigger] keys[j])@ == storage_key(self@[j].name),
            decreases self.entries.len() - i,
        {
            keys.push(storage_key_for(self.entries[i].control_name.as_str()));
            i = i + 1;
        }
        keys
    }

    /// Forgets every entry: the reset of the whole actor.
    pub fn clear(&mut self)
        ensures
            final(self)@ == Seq::<ControlMessageModel>::empty(),
    {
        self.entries = Vec::new();
        assert(self.entries.deep_view() =~= Seq::<ControlMessageModel>::empty());
    }
}

} // verus!
