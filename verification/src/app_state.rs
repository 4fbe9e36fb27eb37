//! The mutable state that request handlers share: the event queue, the
//! private notes, the truth snapshot, the trace log, and the conversation
//! cache.
//!
//! The handles to outside services are not part of it; whoever owns those
//! holds an `AppState` beside them.

use crate::domain::{
    event_views, trace_views, EmployeeAgentId, Event, EventView, PrivateStoreKey, ReasoningTrace,
    TraceView,
};
use crate::event_bus::{after_drain, after_emit, drained, EventBus};
use crate::string_map::StringMap;
use crate::text::{joined, decimal_text, decimal_u64, views};
use vstd::prelude::*;

verus! {

/// One turn of a conversation: who spoke, and what was said.
#[derive(Debug, PartialEq, Eq)]
pub struct ConversationTurn {
    pub role: String,
    pub content: String,
}

impl View for ConversationTurn {
    type V = (Seq<char>, Seq<char>);

    open spec fn view(&self) -> (Seq<char>, Seq<char>) {
        (self.role@, self.content@)
    }
}

impl Clone for ConversationTurn {
    fn clone(&self) -> (r: Self)
        ensures
            r@ == self@,
    {
        ConversationTurn { role: self.role.clone(), content: self.content.clone() }
    }
}

/// The views of a sequence of turns.
pub open spec fn turn_views(v: Seq<ConversationTurn>) -> Seq<(Seq<char>, Seq<char>)> {
    v.map_values(|t: ConversationTurn| t@)
}

/// How many turns of a conversation are remembered per agent.
pub const MEMORY_TURNS: usize = 40;

/// The last `limit` items of `s`, or all of `s` if it has no more.
pub open spec fn last_items<T>(s: Seq<T>, limit: nat) -> Seq<T> {
    if s.len() > limit {
        s.subrange(s.len() - limit, s.len() as int)
    } else {
        s
    }
}

/// Mathematical content of an [`AppState`].
pub struct AppStateView {
    /// The queued events, oldest first.
    pub queue: Seq<EventView>,
    /// The private notes: per agent, note by key.
    pub notes: Map<Seq<char>, Map<Seq<char>, Seq<char>>>,
    /// Per truth object, every content it was given, oldest first.
    pub org_truth: Map<Seq<char>, Seq<Seq<char>>>,
    /// The trace log, oldest first.
    pub traces: Seq<TraceView>,
    /// Per agent, the remembered turns, oldest first.
    pub conversations: Map<Seq<char>, Seq<(Seq<char>, Seq<char>)>>,
    /// How many private notes were stored so far.
    pub private_seq: nat,
}

/// The notes of one agent, or none where the agent has none.
pub open spec fn notes_of(v: AppStateView, agent: Seq<char>) -> Map<Seq<char>, Seq<char>> {
    if v.notes.contains_key(agent) {
        v.notes[agent]
    } else {
        Map::empty()
    }
}

/// The contents that a truth object was given, oldest first; none where the
/// object is unknown.
pub open spec fn history_of(v: AppStateView, id: Seq<char>) -> Seq<Seq<char>> {
    if v.org_truth.contains_key(id) {
        v.org_truth[id]
    } else {
        Seq::empty()
    }
}

/// The remembered turns of one agent, oldest first.
pub open spec fn turns_of(v: AppStateView, agent: Seq<char>) -> Seq<(Seq<char>, Seq<char>)> {
    if v.conversations.contains_key(agent) {
        v.conversations[agent]
    } else {
        Seq::empty()
    }
}

/// The key under which the `seq`-th note is stored for `agent`.
pub open spec fn note_key(agent: Seq<char>, seq: nat) -> Seq<char> {
    agent + ":"@ + decimal_text(seq as int)
}

/// The shared state of the application.
#[derive(Debug)]
pub struct AppState {
    pub event_bus: EventBus,
    private_store: StringMap<StringMap<String>>,
    org_truth: StringMap<Vec<String>>,
    traces: Vec<ReasoningTrace>,
    conversation_cache: StringMap<Vec<ConversationTurn>>,
    private_seq: u64,
}

impl View for AppState {
    type V = AppStateView;

    closed spec fn view(&self) -> AppStateView {
        AppStateView {
            queue: self.event_bus@,
            notes: self.private_store@.map_values(
                |m: StringMap<String>| m@.map_values(|s: String| s@),
            ),
            org_truth: self.org_truth@.map_values(|h: Vec<String>| views(h@)),
            traces: trace_views(self.traces@),
            conversations: self.conversation_cache@.map_values(
                |t: Vec<ConversationTurn>| turn_views(t@),
            ),
            private_seq: self.private_seq as nat,
        }
    }
}

impl AppState {
    /// A state in which nothing has happened yet.
    pub fn new() -> (s: Self)
        ensures
            s@ == (AppStateView {
                queue: Seq::empty(),
                notes: Map::empty(),
                org_truth: Map::empty(),
                traces: Seq::empty(),
                conversations: Map::empty(),
                private_seq: 0,
            }),
    {
        let s = AppState {
            event_bus: EventBus::new(),
            private_store: StringMap::new(),
            org_truth: StringMap::new(),
            traces: Vec::new(),
            conversation_cache: StringMap::new(),
            private_seq: 0,
        };
        assert(s@.notes =~= Map::empty());
        assert(s@.org_truth =~= Map::empty());
        assert(s@.conversations =~= Map::empty());
        assert(s@.traces =~= Seq::empty());
        s
    }

    /// How many private notes were stored so far.
    pub fn private_seq(&self) -> (n: u64)
        ensures
            n == self@.private_seq,
    {
        self.private_seq
    }

    /// Stores `content` as a private note of `agent` under the next sequence
    /// number and returns the note's key.
    pub fn store_private(&mut self, agent: &EmployeeAgentId, content: String) -> (key:
        PrivateStoreKey)
        requires
            old(self)@.private_seq < u64::MAX,
        ensures
            key@ == note_key(agent@, old(self)@.private_seq + 1),
            final(self)@ == (AppStateView {
                notes: old(self)@.notes.insert(
                    agent@,
                    notes_of(old(self)@, agent@).insert(key@, content@),
                ),
                private_seq: old(self)@.private_seq + 1,
                ..old(self)@
            }),
    {
        self.private_seq = self.private_seq + 1;
        let head = joined(agent.0.as_str(), ":");
        let number = decimal_u64(self.private_seq);
        let key = PrivateStoreKey(joined(head.as_str(), number.as_str()));
        let ghost before = old(self)@;
        let mut notes = match self.private_store.remove(agent.0.as_str()) {
            Some(m) => m,
            None => StringMap::new(),
        };
        notes.insert(key.0.clone(), content);
        assert(notes@.map_values(|s: String| s@) =~= notes_of(before, agent@).insert(
            key@,
            content@,
        ));
        self.private_store.insert(agent.0.clone(), notes);
        assert(self@.notes =~= before.notes.insert(
            agent@,
            notes_of(before, agent@).insert(key@, content@),
        ));
        key
    }

    /// Queues `event`.
    pub fn emit(&mut self, event: Event)
        ensures
            final(self)@ == (AppStateView {
                queue: after_emit(old(self)@.queue, event@),
                ..old(self)@
            }),
    {
        self.event_bus.emit(event);
    }

    /// Removes and returns every queued event, in emission order.
    pub fn drain_events(&mut self) -> (batch: Vec<Event>)
        ensures
            event_views(batch@) == drained(old(self)@.queue),
            final(self)@ == (AppStateView {
                queue: after_drain(old(self)@.queue),
                ..old(self)@
            }),
    {
        self.event_bus.drain()
    }

    /// Records `content` as the newest content of the truth object `node`.
    pub fn update_org_truth(&mut self, node: &str, content: String)
        ensures
            final(self)@ == (AppStateView {
                org_truth: old(self)@.org_truth.insert(
                    node@,
                    history_of(old(self)@, node@).push(content@),
                ),
                ..old(self)@
            }),
    {
        let ghost before = old(self)@;
        let mut history = match self.org_truth.remove(node) {
            Some(h) => h,
            None => Vec::new(),
        };
        history.push(content);
        assert(views(history@) =~= history_of(before, node@).push(content@));
        self.org_truth.insert(node.to_owned(), history);
        assert(self@.org_truth =~= before.org_truth.insert(
            node@,
            history_of(before, node@).push(content@),
        ));
    }

    /// The newest content of the truth object `node`, if it has any.
    pub fn latest_truth(&self, node: &str) -> (r: Option<&String>)
        ensures
            match r {
                Some(c) => history_of(self@, node@).len() > 0 && c@ == history_of(
                    self@,
                    node@,
                ).last(),
                None => history_of(self@, node@).len() == 0,
            },
    {
        match self.org_truth.get(node) {
            Some(h) => {
                if h.len() == 0 {
                    None
                } else {
                    let c = &h[h.len() - 1];
                    Some(c)
                }
            },
            None => None,
        }
    }

    /// A copy of the truth snapshot: every truth object, each once, with
    /// the contents it was given, oldest first.
    pub fn truth_snapshot(&self) -> (r: Vec<(String, Vec<String>)>)
        ensures
            forall|i: int|
                0 <= i < r@.len() ==> self@.org_truth.contains_key((#[trigger] r@[i]).0@)
                    && self@.org_truth[r@[i].0@] == views(r@[i].1@),
            forall|i: int, j: int| 0 <= i < j < r@.len() ==> r@[i].0@ != r@[j].0@,
            forall|id: Seq<char>|
                self@.org_truth.contains_key(id) ==> exists|i: int|
                    0 <= i < r@.len() && #[trigger] r@[i].0@ == id,
    {
        proof {
            use_type_invariant(&self.org_truth);
        }
        let mut r: Vec<(String, Vec<String>)> = Vec::new();
        let mut i: usize = 0;
        let n = self.org_truth.len();
        while i < n
            invariant
                i <= n,
                n == self.org_truth.entries().len(),
                self.org_truth.wf(),
                r@.len() == i,
                forall|j: int|
                    0 <= j < i ==> (#[trigger] r@[j]).0@ == self.org_truth.entries()[j].0@
                        && views(r@[j].1@) == views(self.org_truth.entries()[j].1@),
            decreases n - i,
        {
            let id = self.org_truth.key_at(i).clone();
            let history = crate::text::clone_strings(self.org_truth.value_at(i));
            r.push((id, history));
            i += 1;
        }
        proof {
            self.org_truth.lemma_entries_cover();
            assert forall|id: Seq<char>| self@.org_truth.contains_key(id) implies exists|k: int|
                0 <= k < r@.len() && #[trigger] r@[k].0@ == id by {
                let k = crate::string_map::key_index(self.org_truth.entries(), id);
                assert(r@[k].0@ == self.org_truth.entries()[k].0@);
            }
        }
        r
    }

    /// Appends `trace` to the trace log.
    pub fn add_trace(&mut self, trace: ReasoningTrace)
        ensures
            final(self)@ == (AppStateView {
                traces: old(self)@.traces.push(trace@),
                ..old(self)@
            }),
    {
        self.traces.push(trace);
        assert(trace_views(self.traces@) =~= old(self)@.traces.push(trace@));
    }

    /// The trace log, oldest first.
    pub fn traces(&self) -> (r: &Vec<ReasoningTrace>)
        ensures
            trace_views(r@) == self@.traces,
    {
        &self.traces
    }

    /// The remembered turns of `agent`, oldest first.
    pub fn recall(&self, agent: &EmployeeAgentId) -> (r: Vec<ConversationTurn>)
        ensures
            turn_views(r@) == turns_of(self@, agent@),
    {
        match self.conversation_cache.get(agent.0.as_str()) {
            Some(turns) => clone_turns(turns),
            None => {
                let r: Vec<ConversationTurn> = Vec::new();
                r
            },
        }
    }

    /// Remembers one exchange with `agent`: what the user said and what was
    /// answered. Of the agent's turns only the last [`MEMORY_TURNS`] are kept.
    pub fn remember(&mut self, agent: &EmployeeAgentId, said: String, answered: String)
        ensures
            final(self)@ == (AppStateView {
                conversations: old(self)@.conversations.insert(
                    agent@,
                    last_items(
                        turns_of(old(self)@, agent@).push(("user"@, said@)).push(
                            ("assistant"@, answered@),
                        ),
                        MEMORY_TURNS as nat,
                    ),
                ),
                ..old(self)@
            }),
    {
        let ghost before = old(self)@;
        let mut turns = match self.conversation_cache.remove(agent.0.as_str()) {
            Some(t) => t,
            None => Vec::new(),
        };
        turns.push(ConversationTurn { role: "user".to_owned(), content: said });
        turns.push(ConversationTurn { role: "assistant".to_owned(), content: answered });
        let ghost grown = turns_of(before, agent@).push(("user"@, said@)).push(
            ("assistant"@, answered@),
        );
        if turns.len() > MEMORY_TURNS {
            let keep_from = turns.len() - MEMORY_TURNS;
            let kept = turns.split_off(keep_from);
            turns = kept;
        }
        assert(turn_views(turns@) =~= last_items(grown, MEMORY_TURNS as nat));
        self.conversation_cache.insert(agent.0.clone(), turns);
        assert(self@.conversations =~= before.conversations.insert(
            agent@,
            last_items(grown, MEMORY_TURNS as nat),
        ));
    }
}

/// A copy of a list of turns.
pub fn clone_turns(v: &Vec<ConversationTurn>) -> (r: Vec<ConversationTurn>)
    ensures
        turn_views(r@) == turn_views(v@),
{
    let mut r: Vec<ConversationTurn> = Vec::new();
    let mut i: usize = 0;
    while i < v.len()
        invariant
            i <= v.len(),
            r.len() == i,
            forall|j: int| 0 <= j < i ==> r@[j]@ == v@[j]@,
        decreases v.len() - i,
    {
        r.push(v[i].clone());
        i += 1;
    }
    r
}

} // verus!
