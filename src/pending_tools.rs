//! The rendezvous table for tool calls whose real result arrives later: each
//! entry holds both halves of a one-shot channel, and either side may come
//! first.
use vstd::prelude::*;
use crate::protocol::FunctionCallOutputPayload;
use crate::text::same_text;
use tokio::sync::oneshot::{Receiver, Sender};

verus! {

#[verifier::external_type_specification]
#[verifier::external_body]
#[verifier::reject_recursive_types(T)]
pub struct ExOneshotSender<T>(Sender<T>);

#[verifier::external_type_specification]
#[verifier::external_body]
#[verifier::reject_recursive_types(T)]
pub struct ExOneshotReceiver<T>(Receiver<T>);

/// Declared because the receiver's `Future` impl names it.
#[verifier::external_type_specification]
#[verifier::external_body]
pub struct ExOneshotRecvError(tokio::sync::oneshot::error::RecvError);

/// The payload that a sender's channel holds for its receiver once a send
/// on it has been accepted. Nothing is said of a channel whose send was
/// refused, as it is when the receiver was closed or dropped first.
pub uninterp spec fn sender_fate(s: Sender<FunctionCallOutputPayload>) -> Option<FunctionCallOutputPayload>;

/// The payload that a receiver yields once its sender's send has been
/// accepted. A receiver closed before the send yields an error instead,
/// and its sender's send is refused.
pub uninterp spec fn receiver_fate(r: Receiver<FunctionCallOutputPayload>) -> Option<FunctionCallOutputPayload>;

/// Relies on tokio::sync::oneshot::channel: a fresh sender and receiver of
/// one channel, so what a send on the sender stores is what the receiver
/// yields.
#[verifier::external_body]
fn new_channel() -> (r: (Sender<FunctionCallOutputPayload>, Receiver<FunctionCallOutputPayload>))
    ensures
        sender_fate(r.0) == receiver_fate(r.1),
{
    tokio::sync::oneshot::channel()
}

/// Relies on tokio's oneshot `Sender::send`, which consumes the sender. It
/// returns `Ok` only when it stored the payload for the receiver; when the
/// receiver was closed or dropped first it gives the payload back. Returns
/// whether the payload was stored.
#[verifier::external_body]
fn send_payload(tx: &mut Option<Sender<FunctionCallOutputPayload>>, payload: FunctionCallOutputPayload) -> (r: bool)
    requires
        (*old(tx)) is Some,
    ensures
        (*final(tx)) is None,
        r ==> sender_fate((*old(tx))->Some_0) == Some(payload),
{
    match tx.take() {
        Some(s) => s.send(payload).is_ok(),
        None => false,
    }
}

/// A snapshot of one registered call.
pub struct PendingToolMetadata {
    pub call_id: String,
    pub tool_name: String,
    pub turn_id: String,
    pub note: Option<String>,
}

impl PendingToolMetadata {
    /// A copy of the metadata.
    pub fn copy(&self) -> (r: PendingToolMetadata)
        ensures
            r == *self,
    {
        PendingToolMetadata {
            call_id: self.call_id.clone(),
            tool_name: self.tool_name.clone(),
            turn_id: self.turn_id.clone(),
            note: match &self.note {
                Some(n) => Some(n.clone()),
                None => None,
            },
        }
    }
}

/// What the table holds for one call id: the metadata, which halves of
/// the channel have not been taken yet, and what the channel delivers.
pub struct PendingState {
    pub metadata: PendingToolMetadata,
    pub receiver_held: bool,
    pub sender_held: bool,
    pub fate: Option<FunctionCallOutputPayload>,
}

struct PendingToolEntry {
    metadata: PendingToolMetadata,
    receiver: Option<Receiver<FunctionCallOutputPayload>>,
    sender: Option<Sender<FunctionCallOutputPayload>>,
    fate: Ghost<Option<FunctionCallOutputPayload>>,
}

impl PendingToolEntry {
    spec fn key(&self) -> Seq<char> {
        self.metadata.call_id@
    }

    spec fn state(&self) -> PendingState {
        PendingState {
            metadata: self.metadata,
            receiver_held: self.receiver is Some,
            sender_held: self.sender is Some,
            fate: self.fate@,
        }
    }

    /// Both halves still held belong to the entry's channel.
    spec fn paired(&self) -> bool {
        &&& self.receiver matches Some(rx) ==> receiver_fate(rx) == self.fate@
        &&& self.sender matches Some(tx) ==> sender_fate(tx) == self.fate@
    }
}

/// The table of pending tool calls, keyed by call id.
pub struct PendingToolManager {
    entries: Vec<PendingToolEntry>,
}

spec fn has_key(s: Seq<PendingToolEntry>, k: Seq<char>) -> bool {
    exists|i: int| 0 <= i < s.len() && #[trigger] s[i].key() == k
}

spec fn state_at(s: Seq<PendingToolEntry>, k: Seq<char>) -> PendingState {
    s[choose|i: int| 0 <= i < s.len() && #[trigger] s[i].key() == k].state()
}

spec fn table_of(s: Seq<PendingToolEntry>) -> Map<Seq<char>, PendingState> {
    Map::new(|k: Seq<char>| has_key(s, k), |k: Seq<char>| state_at(s, k))
}

spec fn keys_unique(s: Seq<PendingToolEntry>) -> bool {
    forall|i: int, j: int| 0 <= i < s.len() && 0 <= j < s.len() && i != j ==> s[i].key() != s[j].key()
}

spec fn halves_held(s: Seq<PendingToolEntry>) -> bool {
    forall|i: int| 0 <= i < s.len() ==> ((#[trigger] s[i].receiver is Some || s[i].sender is Some) && s[i].paired())
}

/// With unique keys, the entry at `i` is the one the table shows for its key.
proof fn lemma_state_at(s: Seq<PendingToolEntry>, i: int)
    requires
        keys_unique(s),
        0 <= i < s.len(),
    ensures
        has_key(s, s[i].key()),
        state_at(s, s[i].key()) == s[i].state(),
{
    let k = s[i].key();
    assert(s[i].key() == k);
    let j = choose|j: int| 0 <= j < s.len() && #[trigger] s[j].key() == k;
    assert(j == i);
}

/// Removing entry `i` removes its key from the table and keeps the rest.
proof fn lemma_table_remove(s: Seq<PendingToolEntry>, i: int)
    requires
        keys_unique(s),
        0 <= i < s.len(),
    ensures
        keys_unique(s.remove(i)),
        table_of(s.remove(i)) == table_of(s).remove(s[i].key()),
{
    let t = s.remove(i);
    let k = s[i].key();
    assert forall|a: int, b: int| 0 <= a < t.len() && 0 <= b < t.len() && a != b implies t[a].key() != t[b].key() by {
        let a2 = if a < i { a } else { a + 1 };
        let b2 = if b < i { b } else { b + 1 };
        assert(t[a] == s[a2] && t[b] == s[b2]);
    }
    assert forall|x: Seq<char>| #[trigger] table_of(t).contains_key(x) == table_of(s).remove(k).contains_key(x) by {
        if has_key(t, x) {
            let a = choose|a: int| 0 <= a < t.len() && #[trigger] t[a].key() == x;
            let a2 = if a < i { a } else { a + 1 };
            assert(s[a2] == t[a]);
            assert(s[a2].key() == x);
        }
        if has_key(s, x) && x != k {
            let a = choose|a: int| 0 <= a < s.len() && #[trigger] s[a].key() == x;
            assert(a != i);
            let a2 = if a < i { a } else { a - 1 };
            assert(t[a2] == s[a]);
            assert(t[a2].key() == x);
        }
    }
    assert forall|x: Seq<char>| #[trigger] table_of(t).contains_key(x) implies table_of(t)[x] == table_of(s).remove(k)[x] by {
        let a = choose|a: int| 0 <= a < t.len() && #[trigger] t[a].key() == x;
        let a2 = if a < i { a } else { a + 1 };
        assert(s[a2] == t[a]);
        lemma_state_at(t, a);
        lemma_state_at(s, a2);
    }
    assert(table_of(t) =~= table_of(s).remove(k));
}

/// Adding an entry with a new key adds that key to the table.
proof fn lemma_table_push(s: Seq<PendingToolEntry>, e: PendingToolEntry)
    requires
        keys_unique(s),
        !has_key(s, e.key()),
    ensures
        keys_unique(s.push(e)),
        table_of(s.push(e)) == table_of(s).insert(e.key(), e.state()),
{
    let t = s.push(e);
    let k = e.key();
    assert forall|a: int, b: int| 0 <= a < t.len() && 0 <= b < t.len() && a != b implies t[a].key() != t[b].key() by {
        if a < s.len() && b < s.len() {
            assert(t[a] == s[a] && t[b] == s[b]);
        } else if a < s.len() {
            assert(t[a] == s[a]);
            assert(s[a].key() == t[a].key());
        } else {
            assert(t[b] == s[b]);
            assert(s[b].key() == t[b].key());
        }
    }
    assert forall|x: Seq<char>| #[trigger] table_of(t).contains_key(x) == table_of(s).insert(k, e.state()).contains_key(x) by {
        if has_key(t, x) {
            let a = choose|a: int| 0 <= a < t.len() && #[trigger] t[a].key() == x;
            if a < s.len() {
                assert(s[a] == t[a]);
                assert(s[a].key() == x);
            }
        }
        if has_key(s, x) {
            let a = choose|a: int| 0 <= a < s.len() && #[trigger] s[a].key() == x;
            assert(t[a] == s[a]);
            assert(t[a].key() == x);
        }
        if x == k {
            assert(t[s.len() as int] == e);
            assert(t[s.len() as int].key() == x);
        }
    }
    assert forall|x: Seq<char>| #[trigger] table_of(t).contains_key(x) implies table_of(t)[x] == table_of(s).insert(k, e.state())[x] by {
        let a = choose|a: int| 0 <= a < t.len() && #[trigger] t[a].key() == x;
        lemma_state_at(t, a);
        if a < s.len() {
            assert(s[a] == t[a]);
            lemma_state_at(s, a);
        } else {
            assert(t[a] == e);
        }
    }
    assert(table_of(t) =~= table_of(s).insert(k, e.state()));
}

/// After removing a key, that key is absent.
proof fn lemma_removed_absent(s: Seq<PendingToolEntry>, i: int)
    requires
        keys_unique(s),
        0 <= i < s.len(),
    ensures
        !has_key(s.remove(i), s[i].key()),
{
    lemma_table_remove(s, i);
    assert(!table_of(s).remove(s[i].key()).contains_key(s[i].key()));
}

/// The table after registering `m` with a channel that delivers `f`: both
/// halves held, under its call id.
pub open spec fn registered(t: Map<Seq<char>, PendingState>, m: PendingToolMetadata, f: Option<FunctionCallOutputPayload>) -> Map<Seq<char>, PendingState> {
    t.insert(m.call_id@, PendingState { metadata: m, receiver_held: true, sender_held: true, fate: f })
}

/// What resolving `id` with `p` settles of the table it ran on, when the
/// channel accepted the payload: the sender was still there and the
/// channel delivers `p`.
pub open spec fn delivers(t: Map<Seq<char>, PendingState>, id: Seq<char>, p: FunctionCallOutputPayload, accepted: bool) -> bool {
    accepted ==> t.contains_key(id) && t[id].sender_held && t[id].fate == Some(p)
}

/// Whether the receiver for `id` can be taken.
pub open spec fn can_take_receiver(t: Map<Seq<char>, PendingState>, id: Seq<char>) -> bool {
    t.contains_key(id) && t[id].receiver_held
}

/// The table after taking the receiver for `id`: the entry goes if its
/// sender is gone too.
pub open spec fn receiver_taken(t: Map<Seq<char>, PendingState>, id: Seq<char>) -> Map<Seq<char>, PendingState> {
    if can_take_receiver(t, id) {
        if t[id].sender_held {
            t.insert(id, PendingState { receiver_held: false, ..t[id] })
        } else {
            t.remove(id)
        }
    } else {
        t
    }
}

/// The table after resolving `id`: its sender is taken, and the entry goes
/// if its receiver is gone too.
pub open spec fn sender_taken(t: Map<Seq<char>, PendingState>, id: Seq<char>) -> Map<Seq<char>, PendingState> {
    if t.contains_key(id) {
        if t[id].receiver_held {
            t.insert(id, PendingState { sender_held: false, ..t[id] })
        } else {
            t.remove(id)
        }
    } else {
        t
    }
}

/// The metadata registered under `id`, if any.
pub open spec fn lookup(t: Map<Seq<char>, PendingState>, id: Seq<char>) -> Option<PendingToolMetadata> {
    if t.contains_key(id) {
        Some(t[id].metadata)
    } else {
        None
    }
}

/// Once a call is registered, taking its receiver and resolving it, in
/// either order, both succeed and leave nothing behind: a later `cancel`
/// finds no entry.
pub proof fn law_take_and_resolve_leave_nothing(t: Map<Seq<char>, PendingState>, m: PendingToolMetadata, f: Option<FunctionCallOutputPayload>)
    ensures
        ({
            let t1 = registered(t, m, f);
            let id = m.call_id@;
            &&& can_take_receiver(t1, id)
            &&& lookup(receiver_taken(t1, id), id) == Some(m)
            &&& lookup(receiver_taken(sender_taken(t1, id), id), id) is None
            &&& lookup(sender_taken(receiver_taken(t1, id), id), id) is None
            &&& lookup(sender_taken(t1, id), id) == Some(m)
            &&& can_take_receiver(sender_taken(t1, id), id)
        }),
{
}

/// Once a call is registered, the receiver taken for it yields the payload
/// it is resolved with, in either order, whenever the channel accepted that
/// payload: the receiver taken first has the channel's fate, and an accepted
/// send settles that fate; a send accepted first settles the fate that the
/// receiver taken afterwards carries. If the holder closes the receiver
/// before the send, the send is refused and nothing is delivered.
pub proof fn law_receiver_gets_resolved_payload(
    t: Map<Seq<char>, PendingState>,
    m: PendingToolMetadata,
    f: Option<FunctionCallOutputPayload>,
    p: FunctionCallOutputPayload,
)
    ensures
        ({
            let t1 = registered(t, m, f);
            let id = m.call_id@;
            &&& t1[id].fate == f
            &&& delivers(receiver_taken(t1, id), id, p, true) ==> f == Some(p)
            &&& delivers(t1, id, p, true) ==> sender_taken(t1, id)[id].fate == Some(p)
        }),
{
}

/// After `cancel`, neither taking the receiver nor resolving finds the call.
pub proof fn law_cancel_blocks_delivery(t: Map<Seq<char>, PendingState>, id: Seq<char>)
    ensures
        !can_take_receiver(t.remove(id), id),
        lookup(t.remove(id), id) is None,
        receiver_taken(t.remove(id), id) == t.remove(id),
        sender_taken(t.remove(id), id) == t.remove(id),
{
}

impl PendingToolManager {
    /// The table as a map from call id to what it holds for that call.
    pub closed spec fn view(&self) -> Map<Seq<char>, PendingState> {
        table_of(self.entries@)
    }

    /// Keys are unique, each entry sits under its own call id, and no entry
    /// stays once both halves are taken.
    pub closed spec fn wf(&self) -> bool {
        keys_unique(self.entries@) && halves_held(self.entries@)
    }

    pub fn new() -> (r: PendingToolManager)
        ensures
            r.wf(),
            r@ == Map::<Seq<char>, PendingState>::empty(),
    {
        let r = PendingToolManager { entries: Vec::new() };
        assert(r@ =~= Map::<Seq<char>, PendingState>::empty());
        r
    }

    /// The index of the entry for `call_id`.
    fn find(&self, call_id: &str) -> (r: Option<usize>)
        requires
            self.wf(),
        ensures
            match r {
                Some(i) => i < self.entries@.len() && self.entries@[i as int].key() == call_id@,
                None => !has_key(self.entries@, call_id@),
            },
    {
        let mut i: usize = 0;
        while i < self.entries.len()
            invariant
                0 <= i <= self.entries@.len(),
                forall|j: int| 0 <= j < i ==> #[trigger] self.entries@[j].key() != call_id@,
            decreases self.entries@.len() - i,
        {
            if same_text(self.entries[i].metadata.call_id.as_str(), call_id) {
                return Some(i);
            }
            i = i + 1;
        }
        None
    }

    /// Registers a call with a fresh channel; a prior entry under the same
    /// call id is replaced.
    pub fn register(&mut self, call_id: String, tool_name: String, turn_id: String, note: Option<String>) -> (r: PendingToolMetadata)
        requires
            old(self).wf(),
        ensures
            final(self).wf(),
            r == (PendingToolMetadata { call_id, tool_name, turn_id, note }),
            final(self)@ == registered(old(self)@, r, final(self)@[r.call_id@].fate),
    {
        let metadata = PendingToolMetadata { call_id, tool_name, turn_id, note };
        let ghost orig = self.entries@;
        match self.find(metadata.call_id.as_str()) {
            Some(i) => {
                proof {
                    lemma_table_remove(orig, i as int);
                    lemma_removed_absent(orig, i as int);
                }
                let _ = self.entries.remove(i);
            },
            None => {
                assert(table_of(orig).remove(metadata.call_id@) =~= table_of(orig));
            },
        }
        let ghost before = self.entries@;
        let (tx, rx) = new_channel();
        let ghost f = sender_fate(tx);
        let entry = PendingToolEntry { metadata: metadata.copy(), receiver: Some(rx), sender: Some(tx), fate: Ghost(f) };
        proof {
            lemma_table_push(before, entry);
            assert(table_of(orig).remove(metadata.call_id@).insert(metadata.call_id@, entry.state())
                =~= table_of(orig).insert(metadata.call_id@, entry.state()));
        }
        self.entries.push(entry);
        proof {
            let s = self.entries@;
            assert forall|j: int| 0 <= j < s.len() implies ((#[trigger] s[j].receiver is Some || s[j].sender is Some) && s[j].paired()) by {
                if j < before.len() {
                    assert(s[j] == before[j]);
                }
            }
        }
        metadata
    }

    /// Takes the receiving half for `call_id`; the entry goes once its sender
    /// is taken too. `None` when there is no entry or the receiver is gone.
    pub fn take_receiver(&mut self, call_id: &str) -> (r: Option<(PendingToolMetadata, Receiver<FunctionCallOutputPayload>)>)
        requires
            old(self).wf(),
        ensures
            final(self).wf(),
            final(self)@ == receiver_taken(old(self)@, call_id@),
            r is Some == can_take_receiver(old(self)@, call_id@),
            r matches Some((m, _)) ==> m == old(self)@[call_id@].metadata,
            r matches Some((_, rx)) ==> receiver_fate(rx) == old(self)@[call_id@].fate,
    {
        let ghost orig = self.entries@;
        match self.find(call_id) {
            None => {
                None
            },
            Some(i) => {
                proof {
                    lemma_state_at(orig, i as int);
                    assert(orig[i as int].receiver is Some || orig[i as int].sender is Some);
                }
                if self.entries[i].receiver.is_none() {
                    return None;
                }
                proof {
                    lemma_table_remove(orig, i as int);
                    lemma_removed_absent(orig, i as int);
                }
                let mut entry = self.entries.remove(i);
                let rx = entry.receiver.take();
                let meta = entry.metadata.copy();
                if entry.sender.is_some() {
                    let ghost before = self.entries@;
                    proof {
                        lemma_table_push(before, entry);
                        assert(table_of(orig).remove(call_id@).insert(call_id@, entry.state())
                            =~= table_of(orig).insert(call_id@, entry.state()));
                    }
                    self.entries.push(entry);
                    proof {
                        let s = self.entries@;
                        assert forall|j: int| 0 <= j < s.len() implies ((#[trigger] s[j].receiver is Some || s[j].sender is Some) && s[j].paired()) by {
                            if j < before.len() {
                                assert(s[j] == orig.remove(i as int)[j]);
                            }
                        }
                    }
                } else {
                    proof {
                        let s = self.entries@;
                        assert forall|j: int| 0 <= j < s.len() implies ((#[trigger] s[j].receiver is Some || s[j].sender is Some) && s[j].paired()) by {
                            assert(s[j] == orig.remove(i as int)[j]);
                        }
                    }
                }
                match rx {
                    Some(rx) => Some((meta, rx)),
                    None => None,
                }
            },
        }
    }

    /// Sends `payload` on the sending half for `call_id`, if that half is
    /// still there; the entry goes once its receiver is taken too. Returns
    /// the metadata when the entry existed.
    pub fn resolve(&mut self, call_id: &str, payload: FunctionCallOutputPayload) -> (r: Option<PendingToolMetadata>)
        requires
            old(self).wf(),
        ensures
            final(self).wf(),
            final(self)@ == sender_taken(old(self)@, call_id@),
            r == lookup(old(self)@, call_id@),
    {
        self.resolve_reporting(call_id, payload).0
    }

    /// Resolves `call_id` as `resolve` does, and also reports whether the
    /// channel accepted the payload; when it did, the receiver of the call
    /// yields it.
    pub fn resolve_reporting(&mut self, call_id: &str, payload: FunctionCallOutputPayload) -> (r: (Option<PendingToolMetadata>, bool))
        requires
            old(self).wf(),
        ensures
            final(self).wf(),
            final(self)@ == sender_taken(old(self)@, call_id@),
            r.0 == lookup(old(self)@, call_id@),
            delivers(old(self)@, call_id@, payload, r.1),
    {
        let ghost orig = self.entries@;
        match self.find(call_id) {
            None => (None, false),
            Some(i) => {
                proof {
                    lemma_state_at(orig, i as int);
                    lemma_table_remove(orig, i as int);
                    lemma_removed_absent(orig, i as int);
                }
                assert(orig[i as int].receiver is Some || orig[i as int].sender is Some);
                let mut entry = self.entries.remove(i);
                let meta = entry.metadata.copy();
                let accepted = if entry.sender.is_some() {
                    send_payload(&mut entry.sender, payload)
                } else {
                    false
                };
                if entry.receiver.is_some() {
                    let ghost before = self.entries@;
                    proof {
                        lemma_table_push(before, entry);
                        assert(table_of(orig).remove(call_id@).insert(call_id@, entry.state())
                            =~= table_of(orig).insert(call_id@, entry.state()));
                    }
                    self.entries.push(entry);
                    proof {
                        let s = self.entries@;
                        assert forall|j: int| 0 <= j < s.len() implies ((#[trigger] s[j].receiver is Some || s[j].sender is Some) && s[j].paired()) by {
                            if j < before.len() {
                                assert(s[j] == orig.remove(i as int)[j]);
                            }
                        }
                    }
                } else {
                    proof {
                        let s = self.entries@;
                        assert forall|j: int| 0 <= j < s.len() implies ((#[trigger] s[j].receiver is Some || s[j].sender is Some) && s[j].paired()) by {
                            assert(s[j] == orig.remove(i as int)[j]);
                        }
                    }
                }
                (Some(meta), accepted)
            },
        }
    }

    /// Removes the entry for `call_id` without sending anything.
    pub fn cancel(&mut self, call_id: &str) -> (r: Option<PendingToolMetadata>)
        requires
            old(self).wf(),
        ensures
            final(self).wf(),
            r == lookup(old(self)@, call_id@),
            final(self)@ == old(self)@.remove(call_id@),
    {
        let ghost orig = self.entries@;
        match self.find(call_id) {
            None => {
                assert(table_of(orig).remove(call_id@) =~= table_of(orig));
                None
            },
            Some(i) => {
                proof {
                    lemma_state_at(orig, i as int);
                    lemma_table_remove(orig, i as int);
                }
                let entry = self.entries.remove(i);
                proof {
                    let s = self.entries@;
                    assert forall|j: int| 0 <= j < s.len() implies ((#[trigger] s[j].receiver is Some || s[j].sender is Some) && s[j].paired()) by {
                        assert(s[j] == orig.remove(i as int)[j]);
                    }
                }
                Some(entry.metadata)
            },
        }
    }
}

} // verus!
