//! The two-stage reasoning pipeline.
//!
//! Stage A reads a completion as one event signal. Stage B reads a
//! completion as one synthesis: a decision or update, the routing of its
//! trace, and the truth objects to rewrite. Neither stage fails on what a
//! completion holds: text that is no JSON degrades to documented defaults.
//! The completions themselves come from outside; every function here takes
//! the text it is to read.

use crate::app_state::{note_key, notes_of, AppState, AppStateView};
use crate::domain::{
    agent_views, event_views, fresh_uuid, hyphenated, uuid_text, Confidence, EmployeeAgentId,
    Event, EventType, EventView, GraphUpdates, GraphUpdatesView, PrivateStoreKey, ReasoningTrace,
    Routing, TraceView, HALF_BITS,
};
use crate::event_bus::after_emit;
use crate::json::{
    field_members, field_number, field_string, field_strings, member_text, parse_document,
    string_of, text_as_string, JsonShape,
};
use crate::text::{clone_strings, opt_view, views};
use vstd::prelude::*;

verus! {

/// Stage A: turns what a caller said into one event.
pub struct EmployeeAgentNode;

/// Stage B: turns a batch of events into one decision or update.
pub struct OrgBrainNode;

/// The instruction under which stage A asks for a completion.
pub const EMPLOYEE_SYSTEM_PROMPT: &'static str =
    "You are an EmployeeAgent.\nGiven the user's input, emit a single event for the OrgBrain to process.\n\nReturn STRICT JSON with keys:\n- event_type: one of [\"decision_signal\",\"update\",\"concern\",\"clarification\"]\n- topic: short topic string\n- confidence: number in [0,1]\n- private_note: a short private note (may include sensitive/rough thoughts)\n";

/// The instruction under which stage B asks for a completion.
pub const ORG_SYSTEM_PROMPT: &'static str =
    "You are the OrgBrain.\nYou maintain the Organization Truth (versioned), and produce a reasoning trace.\n\nUse retrieved policy snippets if relevant.\n\nReturn STRICT JSON with keys:\n- decision_id: stable string identifier for this decision (if new, create a new UUID string)\n- decision: short label\n- summary: a short summary of the decision/update\n- rationale: why this decision/update was made (1-3 sentences)\n- evidence: array of short evidence strings (may include relevant RAG snippets)\n- assumptions: array of assumptions made\n- response_text: what to say to the user\n- confidence: number in [0,1]\n- routing: object mapping agent_id -> one of [\"full\",\"summary\",\"none\"]\n- org_updates: object mapping truth_id -> update_string (can be empty)\n";

/// The event type that a name stands for; an unknown name is an update.
pub open spec fn event_type_of(name: Seq<char>) -> EventType {
    if name == "decision_signal"@ {
        EventType::DecisionSignal
    } else if name == "concern"@ {
        EventType::Concern
    } else if name == "clarification"@ {
        EventType::Clarification
    } else {
        EventType::Update
    }
}

/// `o`, or `default` where `o` is `None`.
pub open spec fn or_text(o: Option<Seq<char>>, default: Seq<char>) -> Seq<char> {
    match o {
        Some(s) => s,
        None => default,
    }
}

/// The confidence with these bits, or one half where there are none.
pub open spec fn or_half(bits: Option<u64>) -> Confidence {
    match bits {
        Some(b) => Confidence { bits: b },
        None => Confidence { bits: HALF_BITS },
    }
}

/// What stage A reads out of a completion.
#[derive(Debug, PartialEq, Eq)]
pub struct EmployeeSignal {
    pub event_type: EventType,
    pub topic: String,
    pub confidence: Confidence,
    pub private_note: String,
}

/// Mathematical content of an [`EmployeeSignal`].
pub struct SignalView {
    pub event_type: EventType,
    pub topic: Seq<char>,
    pub confidence: Confidence,
    pub private_note: Seq<char>,
}

impl View for EmployeeSignal {
    type V = SignalView;

    open spec fn view(&self) -> SignalView {
        SignalView {
            event_type: self.event_type,
            topic: self.topic@,
            confidence: self.confidence,
            private_note: self.private_note@,
        }
    }
}

/// The signal that a completion `raw` with parse result `doc` stands for.
/// Without a parse result it is an update on the topic `general` with
/// confidence one half, and the whole completion becomes the private note.
/// With one, each member that is missing or of the wrong type takes its
/// default.
pub open spec fn signal_of(doc: Option<JsonShape>, raw: Seq<char>) -> SignalView {
    match doc {
        None => SignalView {
            event_type: EventType::Update,
            topic: "general"@,
            confidence: Confidence { bits: HALF_BITS },
            private_note: raw,
        },
        Some(d) => SignalView {
            event_type: event_type_of(or_text(field_string(d, "event_type"@), "update"@)),
            topic: or_text(field_string(d, "topic"@), "general"@),
            confidence: or_half(field_number(d, "confidence"@)),
            private_note: or_text(field_string(d, "private_note"@), ""@),
        },
    }
}

/// The level that a routing member's JSON text gives: the string it denotes,
/// or `none` where it denotes no string.
pub open spec fn level_text(value: Seq<char>) -> Seq<char> {
    or_text(string_of(value), "none"@)
}

/// The routing map that the members of a routing object stand for.
pub open spec fn routing_from(members: Seq<(String, String)>) -> Map<Seq<char>, Seq<char>>
    decreases members.len(),
{
    if members.len() == 0 {
        Map::empty()
    } else {
        routing_from(members.drop_last()).insert(
            members.last().0@,
            level_text(members.last().1@),
        )
    }
}

/// The truth updates that the members of an update object stand for: each
/// member whose value is a non-empty string, as (truth id, new content), in
/// member order.
pub open spec fn updates_from(members: Seq<(String, String)>) -> Seq<(Seq<char>, Seq<char>)>
    decreases members.len(),
{
    if members.len() == 0 {
        Seq::empty()
    } else {
        let rest = updates_from(members.drop_last());
        let content = or_text(string_of(members.last().1@), ""@);
        if content.len() > 0 {
            rest.push((members.last().0@, content))
        } else {
            rest
        }
    }
}

/// The views of a sequence of pairs of strings.
pub open spec fn pair_views(v: Seq<(String, String)>) -> Seq<(Seq<char>, Seq<char>)> {
    v.map_values(|p: (String, String)| (p.0@, p.1@))
}

/// What stage B reads out of a completion.
#[derive(Debug)]
pub struct Synthesis {
    /// The decision id as the completion gave it; empty where it gave none.
    pub decision_id: String,
    /// The short label of the decision.
    pub decision: String,
    pub summary: String,
    pub rationale: String,
    pub evidence: Vec<String>,
    pub assumptions: Vec<String>,
    pub response_text: String,
    pub confidence: Confidence,
    pub routing: Routing,
    /// The routing object as compact JSON text.
    pub routing_json: String,
    /// The truth objects to rewrite, as (truth id, new content).
    pub org_updates: Vec<(String, String)>,
}

/// Mathematical content of a [`Synthesis`].
pub struct SynthesisView {
    pub decision_id: Seq<char>,
    pub decision: Seq<char>,
    pub summary: Seq<char>,
    pub rationale: Seq<char>,
    pub evidence: Seq<Seq<char>>,
    pub assumptions: Seq<Seq<char>>,
    pub response_text: Seq<char>,
    pub confidence: Confidence,
    pub routing: Map<Seq<char>, Seq<char>>,
    pub routing_json: Seq<char>,
    pub org_updates: Seq<(Seq<char>, Seq<char>)>,
}

impl View for Synthesis {
    type V = SynthesisView;

    open spec fn view(&self) -> SynthesisView {
        SynthesisView {
            decision_id: self.decision_id@,
            decision: self.decision@,
            summary: self.summary@,
            rationale: self.rationale@,
            evidence: views(self.evidence@),
            assumptions: views(self.assumptions@),
            response_text: self.response_text@,
            confidence: self.confidence,
            routing: self.routing@,
            routing_json: self.routing_json@,
            org_updates: pair_views(self.org_updates@),
        }
    }
}

/// The synthesis that a completion `raw` with parse result `doc` stands for.
/// Without a parse result the whole completion becomes the response text and
/// everything else takes its default. With one, each member that is missing
/// or of the wrong type takes its default.
pub open spec fn synthesis_of(doc: Option<JsonShape>, raw: Seq<char>) -> SynthesisView {
    match doc {
        None => SynthesisView {
            decision_id: ""@,
            decision: "respond"@,
            summary: ""@,
            rationale: ""@,
            evidence: Seq::empty(),
            assumptions: Seq::empty(),
            response_text: raw,
            confidence: Confidence { bits: HALF_BITS },
            routing: Map::empty(),
            routing_json: "{}"@,
            org_updates: Seq::empty(),
        },
        Some(d) => SynthesisView {
            decision_id: or_text(field_string(d, "decision_id"@), ""@),
            decision: or_text(field_string(d, "decision"@), "respond"@),
            summary: or_text(field_string(d, "summary"@), ""@),
            rationale: or_text(field_string(d, "rationale"@), ""@),
            evidence: field_strings(d, "evidence"@),
            assumptions: field_strings(d, "assumptions"@),
            response_text: or_text(field_string(d, "response_text"@), ""@),
            confidence: or_half(field_number(d, "confidence"@)),
            routing: match field_members(d, "routing"@) {
                Some(members) => routing_from(members),
                None => Map::empty(),
            },
            routing_json: or_text(member_text(d, "routing"@), "{}"@),
            org_updates: match field_members(d, "org_updates"@) {
                Some(members) => updates_from(members),
                None => Seq::empty(),
            },
        },
    }
}

/// The decision id of a cycle: the id the completion supplied, or the text
/// of a fresh UUID where it supplied none.
pub open spec fn decision_id_of(supplied: Seq<char>, fresh: u128) -> Seq<char> {
    if supplied.len() == 0 {
        uuid_text(fresh)
    } else {
        supplied
    }
}

/// The summary under which a decision is recorded: the summary, or the
/// decision's label where the summary is empty.
pub open spec fn recorded_summary(summary: Seq<char>, label: Seq<char>) -> Seq<char> {
    if summary.len() == 0 {
        label
    } else {
        summary
    }
}

/// The ids of the events of a batch.
pub open spec fn batch_ids(batch: Seq<EventView>) -> Seq<u128> {
    batch.map_values(|e: EventView| e.event_id)
}

/// The emitters of the events of a batch.
pub open spec fn batch_agents(batch: Seq<EventView>) -> Seq<Seq<char>> {
    batch.map_values(|e: EventView| e.emitted_by)
}

/// The trace of a cycle.
pub open spec fn trace_of(
    decision_id: Seq<char>,
    topic: Seq<char>,
    synthesis: SynthesisView,
    version: i64,
    batch: Seq<EventView>,
    graph_updates: GraphUpdatesView,
) -> TraceView {
    TraceView {
        decision_id,
        topic,
        summary: recorded_summary(synthesis.summary, synthesis.decision),
        version,
        rationale: synthesis.rationale,
        evidence: synthesis.evidence,
        assumptions: synthesis.assumptions,
        trigger_events: batch_ids(batch),
        agents_involved: batch_agents(batch),
        graph_updates,
        routing: synthesis.routing,
    }
}

impl EventType {
    /// Reads an event type from its name; an unknown name is an update.
    pub fn from_name(name: &str) -> (r: EventType)
        ensures
            r == event_type_of(name@),
    {
        if name.eq("decision_signal") {
            EventType::DecisionSignal
        } else if name.eq("concern") {
            EventType::Concern
        } else if name.eq("clarification") {
            EventType::Clarification
        } else {
            EventType::Update
        }
    }
}

/// `o`, or a copy of `default` where `o` is `None`.
fn text_or(o: Option<String>, default: &str) -> (r: String)
    ensures
        r@ == or_text(opt_view(o), default@),
{
    match o {
        Some(s) => s,
        None => default.to_owned(),
    }
}

/// The confidence with these bits, or one half where there are none.
fn confidence_or_half(bits: Option<u64>) -> (r: Confidence)
    ensures
        r == or_half(bits),
{
    match bits {
        Some(b) => Confidence { bits: b },
        None => Confidence::half(),
    }
}

impl EmployeeAgentNode {
    /// The signal that a completion `raw` stands for, given the result of
    /// parsing it.
    pub fn interpret(doc: Option<JsonShape>, raw: &str) -> (r: EmployeeSignal)
        ensures
            r@ == signal_of(doc, raw@),
    {
        match doc {
            None => EmployeeSignal {
                event_type: EventType::Update,
                topic: "general".to_owned(),
                confidence: Confidence::half(),
                private_note: raw.to_owned(),
            },
            Some(d) => {
                let name = text_or(d.string_field("event_type"), "update");
                EmployeeSignal {
                    event_type: EventType::from_name(name.as_str()),
                    topic: text_or(d.string_field("topic"), "general"),
                    confidence: confidence_or_half(d.number_field("confidence")),
                    private_note: text_or(d.string_field("private_note"), ""),
                }
            },
        }
    }

    /// Reads a completion as an event signal. The completion may be JSON,
    /// JSON within prose, or neither; a signal results in every case.
    pub fn classify(raw: &str) -> (r: EmployeeSignal)
        ensures
            r@ == signal_of(crate::json::document(raw@), raw@),
    {
        EmployeeAgentNode::interpret(parse_document(raw), raw)
    }

    /// Turns a signal of `agent` into an event with the identity `event_id`
    /// and `timestamp`: stores the private note, and queues the event with a
    /// reference to the note. Returns the note's key.
    pub fn record(
        state: &mut AppState,
        agent: &EmployeeAgentId,
        signal: EmployeeSignal,
        event_id: u128,
        timestamp: crate::domain::Timestamp,
    ) -> (key: PrivateStoreKey)
        requires
            old(state)@.private_seq < u64::MAX,
        ensures
            key@ == note_key(agent@, old(state)@.private_seq + 1),
            final(state)@ == (AppStateView {
                notes: old(state)@.notes.insert(
                    agent@,
                    notes_of(old(state)@, agent@).insert(key@, signal@.private_note),
                ),
                private_seq: old(state)@.private_seq + 1,
                queue: after_emit(
                    old(state)@.queue,
                    EventView {
                        event_id,
                        emitted_by: agent@,
                        event_type: signal@.event_type,
                        topic: signal@.topic,
                        timestamp,
                        confidence: signal@.confidence,
                        references: seq![key@],
                    },
                ),
                ..old(state)@
            }),
    {
        let key = state.store_private(agent, signal.private_note);
        let mut references: Vec<PrivateStoreKey> = Vec::new();
        references.push(key.clone());
        assert(crate::domain::key_views(references@) =~= seq![key@]);
        let event = Event::with_identity(
            event_id,
            timestamp,
            agent.clone(),
            signal.event_type,
            signal.topic,
            signal.confidence,
            references,
        );
        state.emit(event);
        key
    }

    /// Turns a signal of `agent` into a new event, with a fresh random id
    /// and the current time: stores the private note, and queues the event
    /// with a reference to the note. Returns the event's id.
    pub fn emit(state: &mut AppState, agent: &EmployeeAgentId, signal: EmployeeSignal) -> (id:
        u128)
        requires
            old(state)@.private_seq < u64::MAX,
        ensures
            final(state)@.private_seq == old(state)@.private_seq + 1,
            final(state)@.queue.len() == old(state)@.queue.len() + 1,
            final(state)@.queue.drop_last() == old(state)@.queue,
            final(state)@.queue.last().event_id == id,
            final(state)@.queue.last().emitted_by == agent@,
            final(state)@.queue.last().event_type == signal@.event_type,
            final(state)@.queue.last().topic == signal@.topic,
            final(state)@.queue.last().confidence == signal@.confidence,
            final(state)@.queue.last().references == seq![
                note_key(agent@, old(state)@.private_seq + 1),
            ],
            final(state)@.notes == old(state)@.notes.insert(
                agent@,
                notes_of(old(state)@, agent@).insert(
                    note_key(agent@, old(state)@.private_seq + 1),
                    signal@.private_note,
                ),
            ),
            final(state)@.org_truth == old(state)@.org_truth,
            final(state)@.traces == old(state)@.traces,
            final(state)@.conversations == old(state)@.conversations,
    {
        let id = fresh_uuid();
        let timestamp = crate::domain::now();
        let _ = EmployeeAgentNode::record(state, agent, signal, id, timestamp);
        id
    }
}

/// The routing map that the members of a routing object stand for.
pub fn routing_of(members: &Vec<(String, String)>) -> (r: Routing)
    ensures
        r@ == routing_from(members@),
{
    let mut r = Routing::new();
    let mut i: usize = 0;
    while i < members.len()
        invariant
            i <= members.len(),
            r@ == routing_from(members@.take(i as int)),
        decreases members.len() - i,
    {
        proof {
            assert(members@.take(i + 1).drop_last() =~= members@.take(i as int));
        }
        let level = text_or(text_as_string(members[i].1.as_str()), "none");
        r.insert(members[i].0.clone(), level);
        i += 1;
    }
    assert(members@.take(members.len() as int) =~= members@);
    r
}

/// The truth updates that the members of an update object stand for.
pub fn updates_of(members: &Vec<(String, String)>) -> (r: Vec<(String, String)>)
    ensures
        pair_views(r@) == updates_from(members@),
{
    let mut r: Vec<(String, String)> = Vec::new();
    let mut i: usize = 0;
    while i < members.len()
        invariant
            i <= members.len(),
            pair_views(r@) == updates_from(members@.take(i as int)),
        decreases members.len() - i,
    {
        proof {
            assert(members@.take(i + 1).drop_last() =~= members@.take(i as int));
        }
        let content = text_or(text_as_string(members[i].1.as_str()), "");
        if content.as_str().unicode_len() > 0 {
            r.push((members[i].0.clone(), content));
        }
        i += 1;
    }
    assert(members@.take(members.len() as int) =~= members@);
    r
}

impl OrgBrainNode {
    /// Whether a batch asks for a synthesis at all. An empty batch does not:
    /// the cycle is a no-op and produces no trace.
    pub fn has_work(batch: &Vec<Event>) -> (r: bool)
        ensures
            r == (batch@.len() > 0),
    {
        batch.len() > 0
    }

    /// The synthesis that a completion `raw` stands for, given the result of
    /// parsing it.
    pub fn interpret(doc: Option<JsonShape>, raw: &str) -> (r: Synthesis)
        ensures
            r@ == synthesis_of(doc, raw@),
    {
        match doc {
            None => {
                let r = Synthesis {
                    decision_id: "".to_owned(),
                    decision: "respond".to_owned(),
                    summary: "".to_owned(),
                    rationale: "".to_owned(),
                    evidence: Vec::new(),
                    assumptions: Vec::new(),
                    response_text: raw.to_owned(),
                    confidence: Confidence::half(),
                    routing: Routing::new(),
                    routing_json: "{}".to_owned(),
                    org_updates: Vec::new(),
                };
                assert(r@.assumptions =~= Seq::<Seq<char>>::empty());
                assert(r@.org_updates =~= Seq::<(Seq<char>, Seq<char>)>::empty());
                r
            },
            Some(d) => {
                let routing = match d.members_field("routing") {
                    Some(members) => routing_of(&members),
                    None => Routing::new(),
                };
                let routing_json = match d.member("routing") {
                    Some(t) => t.clone(),
                    None => "{}".to_owned(),
                };
                let org_updates = match d.members_field("org_updates") {
                    Some(members) => updates_of(&members),
                    None => {
                        let none: Vec<(String, String)> = Vec::new();
                        assert(pair_views(none@) =~= Seq::<(Seq<char>, Seq<char>)>::empty());
                        none
                    },
                };
                Synthesis {
                    decision_id: text_or(d.string_field("decision_id"), ""),
                    decision: text_or(d.string_field("decision"), "respond"),
                    summary: text_or(d.string_field("summary"), ""),
                    rationale: text_or(d.string_field("rationale"), ""),
                    evidence: d.strings_field("evidence"),
                    assumptions: d.strings_field("assumptions"),
                    response_text: text_or(d.string_field("response_text"), ""),
                    confidence: confidence_or_half(d.number_field("confidence")),
                    routing,
                    routing_json,
                    org_updates,
                }
            },
        }
    }

    /// Reads a completion as a synthesis. The completion may be JSON, JSON
    /// within prose, or neither; a synthesis results in every case.
    pub fn synthesize(raw: &str) -> (r: Synthesis)
        ensures
            r@ == synthesis_of(crate::json::document(raw@), raw@),
    {
        OrgBrainNode::interpret(parse_document(raw), raw)
    }

    /// The decision id of a cycle, given the id that the completion supplied
    /// and a UUID to use where it supplied none. The result is never empty.
    pub fn resolve_decision_id(supplied: String, fresh: u128) -> (r: String)
        ensures
            r@ == decision_id_of(supplied@, fresh),
            r@.len() > 0,
    {
        if supplied.as_str().unicode_len() == 0 {
            hyphenated(fresh)
        } else {
            supplied
        }
    }

    /// The decision id of a cycle: the id that the completion supplied,
    /// which continues that decision's lineage, or a freshly minted one,
    /// which starts a new lineage. The result is never empty.
    pub fn decision_id(supplied: String) -> (r: String)
        ensures
            supplied@.len() > 0 ==> r@ == supplied@,
            exists|fresh: u128| r@ == decision_id_of(supplied@, fresh),
            r@.len() > 0,
    {
        let fresh = fresh_uuid();
        OrgBrainNode::resolve_decision_id(supplied, fresh)
    }

    /// The trace of a cycle that decided `synthesis` on `batch` under the
    /// decision id `decision_id`, wrote version `version`, and touched the
    /// graph as `graph_updates` says.
    pub fn trace(
        decision_id: String,
        topic: String,
        synthesis: &Synthesis,
        version: i64,
        batch: &Vec<Event>,
        graph_updates: GraphUpdates,
    ) -> (t: ReasoningTrace)
        ensures
            t@ == trace_of(
                decision_id@,
                topic@,
                synthesis@,
                version,
                event_views(batch@),
                graph_updates@,
            ),
    {
        let summary = if synthesis.summary.as_str().unicode_len() == 0 {
            synthesis.decision.clone()
        } else {
            synthesis.summary.clone()
        };
        let mut trigger_events: Vec<u128> = Vec::new();
        let mut agents_involved: Vec<EmployeeAgentId> = Vec::new();
        let mut i: usize = 0;
        while i < batch.len()
            invariant
                i <= batch.len(),
                trigger_events@ == batch_ids(event_views(batch@)).take(i as int),
                agent_views(agents_involved@) == batch_agents(event_views(batch@)).take(
                    i as int,
                ),
            decreases batch.len() - i,
        {
            trigger_events.push(batch[i].event_id);
            let ghost before = agent_views(agents_involved@);
            agents_involved.push(batch[i].emitted_by.clone());
            assert(agent_views(agents_involved@) =~= before.push(batch@[i as int].emitted_by@));
            assert(agent_views(agents_involved@) =~= batch_agents(event_views(batch@)).take(
                i + 1,
            ));
            i += 1;
        }
        assert(trigger_events@ =~= batch_ids(event_views(batch@)));
        assert(agent_views(agents_involved@) =~= batch_agents(event_views(batch@)));
        ReasoningTrace {
            decision_id,
            topic,
            summary,
            version,
            rationale: synthesis.rationale.clone(),
            evidence: clone_strings(&synthesis.evidence),
            assumptions: clone_strings(&synthesis.assumptions),
            trigger_events,
            agents_involved,
            graph_updates,
            routing: synthesis.routing.clone(),
        }
    }
}

} // verus!
