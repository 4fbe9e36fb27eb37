//! The data model: agents, events, routing, and reasoning traces.
//!
//! Every type has a view made of mathematical values only (`Seq<char>` for
//! text, `Map` for routing), and the contracts of the other modules are
//! stated over those views.

use crate::string_map::{text_entries, text_map, StringMap};
use crate::text::{clone_strings, views};
use vstd::prelude::*;

verus! {

/// Identifier of an employee agent, such as `employee_john`.
#[derive(Debug, PartialEq, Eq, Hash)]
pub struct EmployeeAgentId(pub String);

impl View for EmployeeAgentId {
    type V = Seq<char>;

    open spec fn view(&self) -> Seq<char> {
        self.0@
    }
}

impl Clone for EmployeeAgentId {
    fn clone(&self) -> (r: Self)
        ensures
            r@ == self@,
    {
        EmployeeAgentId(self.0.clone())
    }
}

/// The role an employee holds in the organization.
#[derive(Debug, Clone, Copy, PartialEq, Eq, Hash, Structural)]
pub enum EmployeeRole {
    Ceo,
    Hr,
    Engineer,
}

/// Key of a private note: the owning agent's id, a colon, and the sequence
/// number under which the note was stored.
#[derive(Debug, PartialEq, Eq, Hash)]
pub struct PrivateStoreKey(pub String);

impl View for PrivateStoreKey {
    type V = Seq<char>;

    open spec fn view(&self) -> Seq<char> {
        self.0@
    }
}

impl Clone for PrivateStoreKey {
    fn clone(&self) -> (r: Self)
        ensures
            r@ == self@,
    {
        PrivateStoreKey(self.0.clone())
    }
}

/// What kind of signal an event carries.
#[derive(Debug, Clone, Copy, PartialEq, Eq, Structural)]
pub enum EventType {
    DecisionSignal,
    Update,
    Concern,
    Clarification,
}

/// A confidence, held as the bit pattern of an IEEE-754 double. The library
/// only carries confidences; it never computes with them.
#[derive(Debug, Clone, Copy, PartialEq, Eq, Structural)]
pub struct Confidence {
    pub bits: u64,
}

/// Bit pattern of the double `0.5`, the confidence assumed when none is given.
pub const HALF_BITS: u64 = 0x3FE0_0000_0000_0000;

/// Bit pattern of the double `1.0`, the confidence of ingested knowledge.
pub const ONE_BITS: u64 = 0x3FF0_0000_0000_0000;

impl Confidence {
    /// The confidence `0.5`.
    pub fn half() -> (c: Self)
        ensures
            c.bits == HALF_BITS,
    {
        Confidence { bits: HALF_BITS }
    }

    /// The confidence `1.0`.
    pub fn one() -> (c: Self)
        ensures
            c.bits == ONE_BITS,
    {
        Confidence { bits: ONE_BITS }
    }
}

/// A point in time: whole seconds since the Unix epoch and the nanoseconds
/// into that second.
#[derive(Debug, Clone, Copy, PartialEq, Eq, Structural)]
pub struct Timestamp {
    pub secs: i64,
    pub nanos: u32,
}

/// A normalized event, as an employee agent emits it.
#[derive(Debug, PartialEq, Eq)]
pub struct Event {
    pub event_id: u128,
    pub emitted_by: EmployeeAgentId,
    pub event_type: EventType,
    pub topic: String,
    pub timestamp: Timestamp,
    pub confidence: Confidence,
    pub references: Vec<PrivateStoreKey>,
}

/// Mathematical content of an [`Event`].
pub struct EventView {
    pub event_id: u128,
    pub emitted_by: Seq<char>,
    pub event_type: EventType,
    pub topic: Seq<char>,
    pub timestamp: Timestamp,
    pub confidence: Confidence,
    pub references: Seq<Seq<char>>,
}

/// The views of a sequence of private-note keys.
pub open spec fn key_views(v: Seq<PrivateStoreKey>) -> Seq<Seq<char>> {
    v.map_values(|k: PrivateStoreKey| k@)
}

/// The views of a sequence of agent ids.
pub open spec fn agent_views(v: Seq<EmployeeAgentId>) -> Seq<Seq<char>> {
    v.map_values(|a: EmployeeAgentId| a@)
}

/// The views of a sequence of events.
pub open spec fn event_views(v: Seq<Event>) -> Seq<EventView> {
    v.map_values(|e: Event| e@)
}

impl View for Event {
    type V = EventView;

    open spec fn view(&self) -> EventView {
        EventView {
            event_id: self.event_id,
            emitted_by: self.emitted_by@,
            event_type: self.event_type,
            topic: self.topic@,
            timestamp: self.timestamp,
            confidence: self.confidence,
            references: key_views(self.references@),
        }
    }
}

/// Trusted: `uuid::Uuid::new_v4`, read as a 128-bit number with
/// `Uuid::as_u128`. The value is random, so nothing is claimed of it.
#[verifier::external_body]
pub(crate) fn fresh_uuid() -> (id: u128) {
    uuid::Uuid::new_v4().as_u128()
}

/// The character of a hexadecimal digit, in lower case.
pub open spec fn hex_char(d: int) -> char {
    if d == 0 {
        '0'
    } else if d == 1 {
        '1'
    } else if d == 2 {
        '2'
    } else if d == 3 {
        '3'
    } else if d == 4 {
        '4'
    } else if d == 5 {
        '5'
    } else if d == 6 {
        '6'
    } else if d == 7 {
        '7'
    } else if d == 8 {
        '8'
    } else if d == 9 {
        '9'
    } else if d == 10 {
        'a'
    } else if d == 11 {
        'b'
    } else if d == 12 {
        'c'
    } else if d == 13 {
        'd'
    } else if d == 14 {
        'e'
    } else {
        'f'
    }
}

/// The last `width` hexadecimal digits of a natural number, most
/// significant first, with leading zeros.
pub open spec fn hex_digits(n: nat, width: nat) -> Seq<char>
    decreases width,
{
    if width == 0 {
        Seq::empty()
    } else {
        hex_digits(n / 16, (width - 1) as nat).push(hex_char((n % 16) as int))
    }
}

/// The first `i` of the 32 hexadecimal digits `h` of a UUID as they are
/// written: in groups of 8, 4, 4, 4 and 12 with hyphens between them.
pub open spec fn grouped(h: Seq<char>, i: int) -> Seq<char> {
    if i <= 8 {
        h.subrange(0, i)
    } else if i <= 12 {
        h.subrange(0, 8) + seq!['-'] + h.subrange(8, i)
    } else if i <= 16 {
        h.subrange(0, 8) + seq!['-'] + h.subrange(8, 12) + seq!['-'] + h.subrange(12, i)
    } else if i <= 20 {
        h.subrange(0, 8) + seq!['-'] + h.subrange(8, 12) + seq!['-'] + h.subrange(12, 16) + seq![
            '-',
        ] + h.subrange(16, i)
    } else {
        h.subrange(0, 8) + seq!['-'] + h.subrange(8, 12) + seq!['-'] + h.subrange(12, 16) + seq![
            '-',
        ] + h.subrange(16, 20) + seq!['-'] + h.subrange(20, i)
    }
}

/// The text of the UUID with this 128-bit value: its 32 hexadecimal digits
/// in lower case, in groups of 8, 4, 4, 4 and 12 with hyphens between them.
pub open spec fn uuid_text(id: u128) -> Seq<char> {
    grouped(hex_digits(id as nat, 32), 32)
}

/// The character of the hexadecimal digit `d`.
fn hex_digit(d: u128) -> (c: char)
    requires
        d < 16,
    ensures
        c == hex_char(d as int),
{
    if d == 0 {
        '0'
    } else if d == 1 {
        '1'
    } else if d == 2 {
        '2'
    } else if d == 3 {
        '3'
    } else if d == 4 {
        '4'
    } else if d == 5 {
        '5'
    } else if d == 6 {
        '6'
    } else if d == 7 {
        '7'
    } else if d == 8 {
        '8'
    } else if d == 9 {
        '9'
    } else if d == 10 {
        'a'
    } else if d == 11 {
        'b'
    } else if d == 12 {
        'c'
    } else if d == 13 {
        'd'
    } else if d == 14 {
        'e'
    } else {
        'f'
    }
}

/// The text of the UUID with this 128-bit value, in the hyphenated form.
pub fn hyphenated(id: u128) -> (r: String)
    ensures
        r@ == uuid_text(id),
        r@.len() == 36,
{
    let mut digits: Vec<char> = Vec::new();
    let mut m: u128 = id;
    let mut k: usize = 0;
    while k < 32
        invariant
            k <= 32,
            digits@.len() == k,
            hex_digits(id as nat, 32) == hex_digits(m as nat, (32 - k) as nat) + digits@,
        decreases 32 - k,
    {
        let d = hex_digit(m % 16);
        digits.insert(0, d);
        m = m / 16;
        k += 1;
    }
    let mut r = String::new();
    let mut i: usize = 0;
    while i < 32
        invariant
            i <= 32,
            digits@.len() == 32,
            r@ == grouped(digits@, i as int),
        decreases 32 - i,
    {
        if i == 8 || i == 12 || i == 16 || i == 20 {
            crate::text::push_char(&mut r, '-');
        }
        crate::text::push_char(&mut r, digits[i]);
        assert(r@ =~= grouped(digits@, i + 1));
        i += 1;
    }
    r
}

/// Trusted: `chrono::Utc::now`, read with `DateTime::timestamp` and
/// `DateTime::timestamp_subsec_nanos`. The value is the machine's clock, so
/// nothing is claimed of it. chrono aborts if the clock reads a time before
/// 1970.
#[verifier::external_body]
pub(crate) fn now() -> (t: Timestamp) {
    let t = chrono::Utc::now();
    Timestamp { secs: t.timestamp(), nanos: t.timestamp_subsec_nanos() }
}

/// A copy of a list of private-note keys.
pub fn clone_keys(v: &Vec<PrivateStoreKey>) -> (r: Vec<PrivateStoreKey>)
    ensures
        key_views(r@) == key_views(v@),
{
    let mut r: Vec<PrivateStoreKey> = Vec::new();
    let mut i: usize = 0;
    while i < v.len()
        invariant
            i <= v.len(),
            r.len() == i,
            forall|j: int| 0 <= j < i ==> r@[j]@ == v@[j]@,
        decreases v.len() - i,
    {
        r.push(v[i].clone());
        i += 1;
    }
    r
}

/// A copy of a list of agent ids.
pub fn clone_agents(v: &Vec<EmployeeAgentId>) -> (r: Vec<EmployeeAgentId>)
    ensures
        agent_views(r@) == agent_views(v@),
{
    let mut r: Vec<EmployeeAgentId> = Vec::new();
    let mut i: usize = 0;
    while i < v.len()
        invariant
            i <= v.len(),
            r.len() == i,
            forall|j: int| 0 <= j < i ==> r@[j]@ == v@[j]@,
        decreases v.len() - i,
    {
        r.push(v[i].clone());
        i += 1;
    }
    r
}

/// A copy of a list of event ids.
pub fn clone_ids(v: &Vec<u128>) -> (r: Vec<u128>)
    ensures
        r@ == v@,
{
    let mut r: Vec<u128> = Vec::new();
    let mut i: usize = 0;
    while i < v.len()
        invariant
            i <= v.len(),
            r@ == v@.subrange(0, i as int),
        decreases v.len() - i,
    {
        r.push(v[i]);
        i += 1;
    }
    r
}

impl Event {
    /// The event with exactly these fields.
    pub fn with_identity(
        event_id: u128,
        timestamp: Timestamp,
        emitted_by: EmployeeAgentId,
        event_type: EventType,
        topic: String,
        confidence: Confidence,
        references: Vec<PrivateStoreKey>,
    ) -> (e: Self)
        ensures
            e@ == (EventView {
                event_id,
                emitted_by: emitted_by@,
                event_type,
                topic: topic@,
                timestamp,
                confidence,
                references: key_views(references@),
            }),
    {
        Event { event_id, emitted_by, event_type, topic, timestamp, confidence, references }
    }

    /// A new event with a fresh random id, stamped with the current time.
    /// Everything else is as given.
    pub fn new(
        emitted_by: EmployeeAgentId,
        event_type: EventType,
        topic: String,
        confidence: Confidence,
        references: Vec<PrivateStoreKey>,
    ) -> (e: Self)
        ensures
            e@.emitted_by == emitted_by@,
            e@.event_type == event_type,
            e@.topic == topic@,
            e@.confidence == confidence,
            e@.references == key_views(references@),
    {
        Event::with_identity(
            fresh_uuid(),
            now(),
            emitted_by,
            event_type,
            topic,
            confidence,
            references,
        )
    }
}

impl Clone for Event {
    fn clone(&self) -> (r: Self)
        ensures
            r@ == self@,
    {
        Event {
            event_id: self.event_id,
            emitted_by: self.emitted_by.clone(),
            event_type: self.event_type,
            topic: self.topic.clone(),
            timestamp: self.timestamp,
            confidence: self.confidence,
            references: clone_keys(&self.references),
        }
    }
}

/// One routing entry: the visibility level that an agent is given.
#[derive(Debug, PartialEq, Eq)]
pub struct RoutingDirective {
    pub agent_id: EmployeeAgentId,
    pub level: String,
}

/// The routing map of a synthesis cycle: agent id to visibility level, as
/// text. No agent occurs twice.
#[derive(Debug)]
pub struct Routing {
    levels: StringMap<String>,
}

impl View for Routing {
    type V = Map<Seq<char>, Seq<char>>;

    closed spec fn view(&self) -> Map<Seq<char>, Seq<char>> {
        text_map(self.levels.entries())
    }
}

impl Routing {
    /// The entries as (agent, level) pairs of text, in listing order.
    pub closed spec fn directives(&self) -> Seq<(Seq<char>, Seq<char>)> {
        text_entries(self.levels.entries())
    }

    /// The empty routing map.
    pub fn new() -> (r: Self)
        ensures
            r@ == Map::<Seq<char>, Seq<char>>::empty(),
            r.directives() == Seq::<(Seq<char>, Seq<char>)>::empty(),
    {
        let r = Routing { levels: StringMap::new() };
        r
    }

    /// Number of entries.
    pub fn len(&self) -> (n: usize)
        ensures
            n == self.directives().len(),
    {
        self.levels.len()
    }

    /// The `i`-th entry.
    pub fn directive(&self, i: usize) -> (d: RoutingDirective)
        requires
            i < self.directives().len(),
        ensures
            (d.agent_id@, d.level@) == self.directives()[i as int],
            self@.contains_key(d.agent_id@),
            self@[d.agent_id@] == d.level@,
    {
        let agent = self.levels.key_at(i).clone();
        let level = self.levels.value_at(i).clone();
        RoutingDirective { agent_id: EmployeeAgentId(agent), level }
    }

    /// The level given to `agent`, if the map has an entry for it.
    pub fn get(&self, agent: &str) -> (r: Option<&String>)
        ensures
            match r {
                Some(level) => self@.contains_key(agent@) && level@ == self@[agent@],
                None => !self@.contains_key(agent@),
            },
    {
        self.levels.get(agent)
    }

    /// Gives `agent` the level `level`, replacing an earlier entry for it.
    pub fn insert(&mut self, agent: String, level: String)
        ensures
            final(self)@ == old(self)@.insert(agent@, level@),
    {
        self.levels.insert(agent, level);
    }
}

impl Clone for Routing {
    fn clone(&self) -> (r: Self)
        ensures
            r@ == self@,
            r.directives() == self.directives(),
    {
        Routing { levels: self.levels.duplicate() }
    }
}

/// Identifiers of the graph nodes and edges that a synthesis cycle touched.
#[derive(Debug, PartialEq, Eq)]
pub struct GraphUpdates {
    pub nodes: Vec<String>,
    pub edges: Vec<String>,
}

/// Mathematical content of a [`GraphUpdates`].
pub struct GraphUpdatesView {
    pub nodes: Seq<Seq<char>>,
    pub edges: Seq<Seq<char>>,
}

impl View for GraphUpdates {
    type V = GraphUpdatesView;

    open spec fn view(&self) -> GraphUpdatesView {
        GraphUpdatesView { nodes: views(self.nodes@), edges: views(self.edges@) }
    }
}

impl Clone for GraphUpdates {
    fn clone(&self) -> (r: Self)
        ensures
            r@ == self@,
    {
        GraphUpdates { nodes: clone_strings(&self.nodes), edges: clone_strings(&self.edges) }
    }
}

/// The externally visible record of one synthesis cycle.
#[derive(Debug)]
pub struct ReasoningTrace {
    pub decision_id: String,
    pub topic: String,
    pub summary: String,
    pub version: i64,
    pub rationale: String,
    pub evidence: Vec<String>,
    pub assumptions: Vec<String>,
    pub trigger_events: Vec<u128>,
    pub agents_involved: Vec<EmployeeAgentId>,
    pub graph_updates: GraphUpdates,
    pub routing: Routing,
}

/// Mathematical content of a [`ReasoningTrace`].
pub struct TraceView {
    pub decision_id: Seq<char>,
    pub topic: Seq<char>,
    pub summary: Seq<char>,
    pub version: i64,
    pub rationale: Seq<char>,
    pub evidence: Seq<Seq<char>>,
    pub assumptions: Seq<Seq<char>>,
    pub trigger_events: Seq<u128>,
    pub agents_involved: Seq<Seq<char>>,
    pub graph_updates: GraphUpdatesView,
    pub routing: Map<Seq<char>, Seq<char>>,
}

impl View for ReasoningTrace {
    type V = TraceView;

    open spec fn view(&self) -> TraceView {
        TraceView {
            decision_id: self.decision_id@,
            topic: self.topic@,
            summary: self.summary@,
            version: self.version,
            rationale: self.rationale@,
            evidence: views(self.evidence@),
            assumptions: views(self.assumptions@),
            trigger_events: self.trigger_events@,
            agents_involved: agent_views(self.agents_involved@),
            graph_updates: self.graph_updates@,
            routing: self.routing@,
        }
    }
}

/// The views of a sequence of traces.
pub open spec fn trace_views(v: Seq<ReasoningTrace>) -> Seq<TraceView> {
    v.map_values(|t: ReasoningTrace| t@)
}

impl Clone for ReasoningTrace {
    fn clone(&self) -> (r: Self)
        ensures
            r@ == self@,
    {
        ReasoningTrace {
            decision_id: self.decision_id.clone(),
            topic: self.topic.clone(),
            summary: self.summary.clone(),
            version: self.version,
            rationale: self.rationale.clone(),
            evidence: clone_strings(&self.evidence),
            assumptions: clone_strings(&self.assumptions),
            trigger_events: clone_ids(&self.trigger_events),
            agents_involved: clone_agents(&self.agents_involved),
            graph_updates: self.graph_updates.clone(),
            routing: self.routing.clone(),
        }
    }
}

} // verus!
