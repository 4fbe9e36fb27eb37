//! The two services behind the external interface: asking, and ingesting
//! knowledge.
//!
//! A service call alternates between work that only the outside can do
//! (asking for a completion, retrieving snippets) and decisions. The
//! decisions are here, one function for each stretch between two pieces of
//! outside work; each takes what the outside returned as plain values.

use crate::api::DEFAULT_AGENT;
use crate::app_state::{history_of, turn_views, AppState, AppStateView, ConversationTurn};
use crate::domain::{
    event_views, Confidence, EmployeeAgentId, Event, EventView, GraphUpdates, GraphUpdatesView,
    ReasoningTrace, Routing, TraceView, ONE_BITS,
};
use crate::json::{json_unfold, unfold, JsonShape};
use crate::pipeline::{
    pair_views, recorded_summary, routing_from, routing_of, trace_of, OrgBrainNode, Synthesis,
    SynthesisView,
};
use crate::store::{
    chain_at, next_number, persisted, version_node_text, ObjectKind, StoreView, VersionWrite,
    VersionedGraphStore, WriteView,
};
use crate::text::{clone_strings, opt_view, views};
use vstd::prelude::*;

verus! {

/// The lines that recount a conversation, oldest turn first: for each turn
/// a dash, the role, a colon, and what was said.
pub open spec fn context_lines(turns: Seq<(Seq<char>, Seq<char>)>) -> Seq<char>
    decreases turns.len(),
{
    if turns.len() == 0 {
        Seq::empty()
    } else {
        context_lines(turns.drop_last()) + "- "@ + turns.last().0 + ": "@ + turns.last().1
            + "\n"@
    }
}

/// The recount of a conversation that precedes what the user says now;
/// empty where there was no conversation.
pub open spec fn memory_context_of(turns: Seq<(Seq<char>, Seq<char>)>) -> Seq<char> {
    if turns.len() == 0 {
        Seq::empty()
    } else {
        "Prior conversation (most recent last):\n"@ + context_lines(turns)
    }
}

/// What stage A is asked: what the user says, after the recount of the
/// conversation so far where there is one.
pub open spec fn employee_prompt_of(turns: Seq<(Seq<char>, Seq<char>)>, said: Seq<char>) -> Seq<
    char,
> {
    if memory_context_of(turns).len() == 0 {
        said
    } else {
        memory_context_of(turns) + "\n\nUser: "@ + said
    }
}

/// The agent on whose behalf a service call works: the one named, or the
/// default agent where none is.
pub open spec fn acting_agent(agent_id: Option<Seq<char>>) -> Seq<char> {
    match agent_id {
        Some(a) => a,
        None => DEFAULT_AGENT@,
    }
}

/// The trace that records an ingestion.
pub open spec fn ingest_trace_of(
    truth_id: Seq<char>,
    content: Seq<char>,
    agent: Seq<char>,
    trigger_event: u128,
    version: i64,
    graph_updates: GraphUpdatesView,
    routing: Map<Seq<char>, Seq<char>>,
) -> TraceView {
    TraceView {
        decision_id: truth_id,
        topic: "knowledge"@,
        summary: content,
        version,
        rationale: "knowledge_ingest"@,
        evidence: Seq::empty(),
        assumptions: Seq::empty(),
        trigger_events: seq![trigger_event],
        agents_involved: seq![agent],
        graph_updates,
        routing,
    }
}

/// The routing map that a routing object in JSON text stands for; empty
/// where the text is no object.
pub open spec fn routing_of_text(text: Seq<char>) -> Map<Seq<char>, Seq<char>> {
    match json_unfold(text) {
        Some(JsonShape::Object(members)) => routing_from(members@),
        _ => Map::empty(),
    }
}

/// The store and the graph nodes touched after the next version of the
/// object `id` was offered with content `w`: the extended store and the
/// object's and the version's node where the write applies, else the store
/// as it was and no node.
pub open spec fn after_write(
    s: StoreView,
    kind: ObjectKind,
    id: Seq<char>,
    tag: Seq<char>,
    w: WriteView,
) -> (StoreView, Seq<Seq<char>>) {
    let version = next_number(chain_at(s, kind, id));
    match persisted(s, kind, id, tag, version, w) {
        Ok(after) => (after, seq![id, version_node_text(id, version)]),
        Err(_) => (s, Seq::empty()),
    }
}

/// The recount of a conversation that precedes what the user says now.
pub fn memory_context(turns: &Vec<ConversationTurn>) -> (r: String)
    ensures
        r@ == memory_context_of(turn_views(turns@)),
{
    let mut r = String::new();
    if turns.len() == 0 {
        return r;
    }
    let ghost lines: Seq<char> = Seq::empty();
    r.append("Prior conversation (most recent last):\n");
    let mut i: usize = 0;
    while i < turns.len()
        invariant
            i <= turns.len(),
            lines == context_lines(turn_views(turns@).take(i as int)),
            r@ == "Prior conversation (most recent last):\n"@ + lines,
        decreases turns.len() - i,
    {
        proof {
            let all = turn_views(turns@);
            assert(all.take(i + 1).drop_last() =~= all.take(i as int));
        }
        r.append("- ");
        r.append(turns[i].role.as_str());
        r.append(": ");
        r.append(turns[i].content.as_str());
        r.append("\n");
        proof {
            let next = lines + "- "@ + turns@[i as int].role@ + ": "@ + turns@[i as int].content@
                + "\n"@;
            lines = next;
        }
        i += 1;
    }
    assert(turn_views(turns@).take(turns.len() as int) =~= turn_views(turns@));
    r
}

/// What stage A is asked.
pub fn employee_user_prompt(turns: &Vec<ConversationTurn>, said: &str) -> (r: String)
    ensures
        r@ == employee_prompt_of(turn_views(turns@), said@),
{
    let context = memory_context(turns);
    if context.as_str().unicode_len() == 0 {
        said.to_owned()
    } else {
        let mut r = context;
        r.append("\n\nUser: ");
        r.append(said);
        r
    }
}

/// Turns loaded newest first, put into the order in which they were said.
pub fn chronological(newest_first: Vec<ConversationTurn>) -> (r: Vec<ConversationTurn>)
    ensures
        r@ == newest_first@.reverse(),
{
    let mut rest = newest_first;
    let ghost all = rest@;
    let mut r: Vec<ConversationTurn> = Vec::new();
    while rest.len() > 0
        invariant
            r@.len() + rest@.len() == all.len(),
            rest@ == all.subrange(0, rest@.len() as int),
            forall|j: int| 0 <= j < r@.len() ==> r@[j] == all[all.len() - 1 - j],
        decreases rest@.len(),
    {
        let t = rest.pop().unwrap();
        r.push(t);
    }
    r
}

/// The agent on whose behalf a service call works.
pub fn agent_or_default(agent_id: Option<String>) -> (r: EmployeeAgentId)
    ensures
        r@ == acting_agent(
            opt_view(agent_id),
        ),
{
    match agent_id {
        Some(a) => EmployeeAgentId(a),
        None => EmployeeAgentId(DEFAULT_AGENT.to_owned()),
    }
}

/// The routing map that a routing object in JSON text stands for, given the
/// result of parsing the text.
pub fn routing_of_shape(parsed: Option<JsonShape>) -> (r: Routing)
    ensures
        r@ == (match parsed {
            Some(JsonShape::Object(members)) => routing_from(members@),
            _ => Map::empty(),
        }),
{
    match parsed {
        Some(JsonShape::Object(members)) => routing_of(&members),
        _ => Routing::new(),
    }
}

/// The routing map that a routing object in JSON text stands for; empty
/// where the text is no object.
pub fn routing_from_text(text: &str) -> (r: Routing)
    ensures
        r@ == routing_of_text(text@),
{
    routing_of_shape(unfold(text))
}

/// The trace that records an ingestion.
pub fn ingest_trace(
    truth_id: String,
    content: String,
    agent: EmployeeAgentId,
    trigger_event: u128,
    version: i64,
    graph_updates: GraphUpdates,
    routing: Routing,
) -> (t: ReasoningTrace)
    ensures
        t@ == ingest_trace_of(
            truth_id@,
            content@,
            agent@,
            trigger_event,
            version,
            graph_updates@,
            routing@,
        ),
{
    let mut trigger_events: Vec<u128> = Vec::new();
    trigger_events.push(trigger_event);
    let mut agents_involved: Vec<EmployeeAgentId> = Vec::new();
    agents_involved.push(agent);
    let t = ReasoningTrace {
        decision_id: truth_id,
        topic: "knowledge".to_owned(),
        summary: content,
        version,
        rationale: "knowledge_ingest".to_owned(),
        evidence: Vec::new(),
        assumptions: Vec::new(),
        trigger_events,
        agents_involved,
        graph_updates,
        routing,
    };
    assert(t@.assumptions =~= Seq::<Seq<char>>::empty());
    assert(t@.agents_involved =~= seq![agent@]);
    t
}

/// Offers the next version of the object `id` to the store. Returns the
/// version number offered and the graph nodes touched; a refused write
/// touches none and leaves the store as it was.
pub fn write_next(
    store: &mut VersionedGraphStore,
    kind: ObjectKind,
    id: String,
    tag: String,
    write: VersionWrite,
) -> (r: (i64, Vec<String>))
    ensures
        r.0 == next_number(chain_at(old(store)@, kind, id@)),
        (final(store)@, views(r.1@)) == after_write(old(store)@, kind, id@, tag@, write@),
{
    let version = store.next_version(kind, id.as_str());
    match store.persist_version(kind, id, tag, version, write) {
        Ok(update) => (version, update.nodes),
        Err(_) => {
            let none: Vec<String> = Vec::new();
            (version, none)
        },
    }
}

/// The write that an ingestion asks of the store: `content` as the next
/// version of the truth object `truth_id`, with confidence one, the
/// ingestion's event as the only trigger and the acting agent as the only
/// participant.
pub fn plan_ingest(
    truth_id: String,
    kind: String,
    content: String,
    agent: &EmployeeAgentId,
    routing: Routing,
    trigger_event: u128,
) -> (w: PlannedWrite)
    ensures
        w@ == (PlannedWriteView {
            kind: ObjectKind::TruthObject,
            id: truth_id@,
            tag: kind@,
            write: WriteView {
                payload: content@,
                confidence: Confidence { bits: ONE_BITS },
                trigger_events: seq![trigger_event],
                participants: seq![agent@],
                routing: routing@,
            },
        }),
{
    let mut trigger_events: Vec<u128> = Vec::new();
    trigger_events.push(trigger_event);
    let mut participants: Vec<String> = Vec::new();
    participants.push(agent.0.clone());
    assert(views(participants@) =~= seq![agent@]);
    PlannedWrite {
        kind: ObjectKind::TruthObject,
        id: truth_id,
        tag: kind,
        write: VersionWrite {
            payload: content,
            confidence: Confidence::one(),
            trigger_events,
            participants,
            routing,
        },
    }
}

/// Ingests knowledge without a graph store: records `content` as the newest
/// content of the truth object `truth_id` and returns the trace of the
/// ingestion, which carries version 1 and touches no graph node.
pub fn ingest_unpersisted(
    state: &mut AppState,
    truth_id: String,
    content: String,
    agent_id: Option<String>,
    routing: &str,
    trigger_event: u128,
) -> (t: ReasoningTrace)
    ensures
        final(state)@ == (AppStateView {
            org_truth: old(state)@.org_truth.insert(
                truth_id@,
                history_of(old(state)@, truth_id@).push(content@),
            ),
            ..old(state)@
        }),
        t@ == ingest_trace_of(
            truth_id@,
            content@,
            acting_agent(
                opt_view(agent_id),
            ),
            trigger_event,
            1,
            GraphUpdatesView { nodes: Seq::empty(), edges: Seq::empty() },
            routing_of_text(routing@),
        ),
{
    let agent = agent_or_default(agent_id);
    state.update_org_truth(truth_id.as_str(), content.clone());
    let graph_updates = GraphUpdates { nodes: Vec::new(), edges: Vec::new() };
    assert(graph_updates@.edges =~= Seq::<Seq<char>>::empty());
    ingest_trace(
        truth_id,
        content,
        agent,
        trigger_event,
        1,
        graph_updates,
        routing_from_text(routing),
    )
}

/// Ingests knowledge: records `content` as the newest content of the truth
/// object `truth_id`, writes it to the store as the object's next version
/// with confidence one, and returns the trace of the ingestion. The trace
/// carries the version number offered, also where the store refused the
/// write.
pub fn ingest_knowledge(
    state: &mut AppState,
    store: &mut VersionedGraphStore,
    truth_id: String,
    kind: String,
    content: String,
    agent_id: Option<String>,
    routing: &str,
    trigger_event: u128,
) -> (t: ReasoningTrace)
    ensures
        final(state)@ == (AppStateView {
            org_truth: old(state)@.org_truth.insert(
                truth_id@,
                history_of(old(state)@, truth_id@).push(content@),
            ),
            ..old(state)@
        }),
        ({
            let agent = acting_agent(
                opt_view(agent_id),
            );
            let write = WriteView {
                payload: content@,
                confidence: Confidence { bits: ONE_BITS },
                trigger_events: seq![trigger_event],
                participants: seq![agent],
                routing: routing_of_text(routing@),
            };
            let outcome = after_write(
                old(store)@,
                ObjectKind::TruthObject,
                truth_id@,
                kind@,
                write,
            );
            &&& final(store)@ == outcome.0
            &&& t@ == ingest_trace_of(
                truth_id@,
                content@,
                agent,
                trigger_event,
                next_number(chain_at(old(store)@, ObjectKind::TruthObject, truth_id@)) as i64,
                GraphUpdatesView { nodes: outcome.1, edges: Seq::empty() },
                routing_of_text(routing@),
            )
        }),
{
    let agent = agent_or_default(agent_id);
    state.update_org_truth(truth_id.as_str(), content.clone());
    let planned = plan_ingest(
        truth_id.clone(),
        kind,
        content.clone(),
        &agent,
        routing_from_text(routing),
        trigger_event,
    );
    let (version, nodes) = write_next(store, planned.kind, planned.id, planned.tag, planned.write);
    let graph_updates = GraphUpdates { nodes, edges: Vec::new() };
    assert(graph_updates@.edges =~= Seq::<Seq<char>>::empty());
    ingest_trace(
        truth_id,
        content,
        agent,
        trigger_event,
        version,
        graph_updates,
        routing_from_text(routing),
    )
}

/// The state after each truth update was recorded, in order.
pub open spec fn with_updates(v: AppStateView, updates: Seq<(Seq<char>, Seq<char>)>)
    -> AppStateView
    decreases updates.len(),
{
    if updates.len() == 0 {
        v
    } else {
        let before = with_updates(v, updates.drop_last());
        AppStateView {
            org_truth: before.org_truth.insert(
                updates.last().0,
                history_of(before, updates.last().0).push(updates.last().1),
            ),
            ..before
        }
    }
}

/// The newest content of a truth object, or the empty text where it has
/// none.
pub open spec fn latest_of(v: AppStateView, id: Seq<char>) -> Seq<char> {
    if history_of(v, id).len() > 0 {
        history_of(v, id).last()
    } else {
        Seq::empty()
    }
}

/// One write that a cycle asks of the store: the next version of the object
/// `id` of kind `kind`, tagged `tag` if the write creates the object.
#[derive(Debug)]
pub struct PlannedWrite {
    pub kind: ObjectKind,
    pub id: String,
    pub tag: String,
    pub write: VersionWrite,
}

/// Mathematical content of a [`PlannedWrite`].
pub struct PlannedWriteView {
    pub kind: ObjectKind,
    pub id: Seq<char>,
    pub tag: Seq<char>,
    pub write: WriteView,
}

impl View for PlannedWrite {
    type V = PlannedWriteView;

    open spec fn view(&self) -> PlannedWriteView {
        PlannedWriteView { kind: self.kind, id: self.id@, tag: self.tag@, write: self.write@ }
    }
}

/// The views of a list of planned writes.
pub open spec fn plan_views(v: Seq<PlannedWrite>) -> Seq<PlannedWriteView> {
    v.map_values(|w: PlannedWrite| w@)
}

/// The writes for the truth objects named by `updates`, in order: each
/// object whose newest content in the state `v` is not empty gets that
/// content as its next version, tagged `org_truth` if the write creates the
/// object, and everything else as in `template`.
pub open spec fn truth_writes(
    v: AppStateView,
    updates: Seq<(Seq<char>, Seq<char>)>,
    template: WriteView,
) -> Seq<PlannedWriteView>
    decreases updates.len(),
{
    if updates.len() == 0 {
        Seq::empty()
    } else {
        let before = truth_writes(v, updates.drop_last(), template);
        let id = updates.last().0;
        let content = latest_of(v, id);
        if content.len() == 0 {
            before
        } else {
            before.push(
                PlannedWriteView {
                    kind: ObjectKind::TruthObject,
                    id,
                    tag: "org_truth"@,
                    write: WriteView { payload: content, ..template },
                },
            )
        }
    }
}

/// The writes that a cycle asks of the store, given the state after its
/// truth updates were recorded: first the decision, under the summary of
/// the synthesis or its label where the summary is empty, without a tag;
/// then the updated truth objects.
pub open spec fn planned(
    updated: AppStateView,
    synthesis: SynthesisView,
    decision_id: Seq<char>,
    confidence: Confidence,
    trigger_events: Seq<u128>,
    participants: Seq<Seq<char>>,
) -> Seq<PlannedWriteView> {
    let template = WriteView {
        payload: recorded_summary(synthesis.summary, synthesis.decision),
        confidence,
        trigger_events,
        participants,
        routing: synthesis.routing,
    };
    seq![
        PlannedWriteView {
            kind: ObjectKind::Decision,
            id: decision_id,
            tag: Seq::empty(),
            write: template,
        },
    ] + truth_writes(updated, synthesis.org_updates, template)
}

/// The store and the graph nodes touched after each planned write was
/// offered in turn. A refused write touches nothing and does not keep the
/// others from being offered.
pub open spec fn after_writes(s: StoreView, plan: Seq<PlannedWriteView>) -> (
    StoreView,
    Seq<Seq<char>>,
)
    decreases plan.len(),
{
    if plan.len() == 0 {
        (s, Seq::empty())
    } else {
        let before = after_writes(s, plan.drop_last());
        let w = plan.last();
        let step = after_write(before.0, w.kind, w.id, w.tag, w.write);
        (step.0, before.1 + step.1)
    }
}

/// What a synthesis cycle leaves behind.
pub struct CycleView {
    pub state: AppStateView,
    pub store: StoreView,
    pub trace: TraceView,
}

/// The outcome of concluding a cycle against a store: the truth updates
/// are recorded in the state; the planned writes are offered to the store;
/// and the trace of all this is appended to the trace log. The trace
/// carries the decision's version number as offered, and the nodes of the
/// writes that applied.
pub open spec fn concluded(
    v: AppStateView,
    s: StoreView,
    synthesis: SynthesisView,
    decision_id: Seq<char>,
    topic: Seq<char>,
    confidence: Confidence,
    trigger_events: Seq<u128>,
    participants: Seq<Seq<char>>,
    batch: Seq<EventView>,
) -> CycleView {
    let updated = with_updates(v, synthesis.org_updates);
    let plan = planned(updated, synthesis, decision_id, confidence, trigger_events, participants);
    let version = next_number(chain_at(s, ObjectKind::Decision, decision_id));
    let written = after_writes(s, plan);
    let trace = trace_of(
        decision_id,
        topic,
        synthesis,
        version as i64,
        batch,
        GraphUpdatesView { nodes: written.1, edges: Seq::empty() },
    );
    CycleView {
        state: AppStateView { traces: updated.traces.push(trace), ..updated },
        store: written.0,
        trace,
    }
}

/// The outcome of concluding a cycle without a store: the truth updates
/// are recorded in the state, and the trace, which carries version 1 and
/// touches no graph node, is appended to the trace log.
pub open spec fn concluded_unpersisted(
    v: AppStateView,
    synthesis: SynthesisView,
    decision_id: Seq<char>,
    topic: Seq<char>,
    batch: Seq<EventView>,
) -> (AppStateView, TraceView) {
    let updated = with_updates(v, synthesis.org_updates);
    let trace = trace_of(
        decision_id,
        topic,
        synthesis,
        1,
        batch,
        GraphUpdatesView { nodes: Seq::empty(), edges: Seq::empty() },
    );
    (AppStateView { traces: updated.traces.push(trace), ..updated }, trace)
}

/// Records each truth update in the state, in order.
pub fn apply_org_updates(state: &mut AppState, updates: &Vec<(String, String)>)
    ensures
        final(state)@ == with_updates(old(state)@, pair_views(updates@)),
{
    let mut i: usize = 0;
    while i < updates.len()
        invariant
            i <= updates.len(),
            state@ == with_updates(old(state)@, pair_views(updates@).take(i as int)),
        decreases updates.len() - i,
    {
        proof {
            let all = pair_views(updates@);
            assert(all.take(i + 1).drop_last() =~= all.take(i as int));
        }
        state.update_org_truth(updates[i].0.as_str(), updates[i].1.clone());
        i += 1;
    }
    assert(pair_views(updates@).take(updates.len() as int) =~= pair_views(updates@));
}

/// A version write with the payload `payload` and everything else as in
/// `template`.
fn write_like(template: &VersionWrite, payload: String) -> (w: VersionWrite)
    ensures
        w@ == (WriteView { payload: payload@, ..template@ }),
{
    VersionWrite {
        payload,
        confidence: template.confidence,
        trigger_events: crate::domain::clone_ids(&template.trigger_events),
        participants: clone_strings(&template.participants),
        routing: template.routing.clone(),
    }
}

/// The writes that a cycle asks of the store, given the state after its
/// truth updates were recorded.
pub fn plan_writes(
    state: &AppState,
    synthesis: &Synthesis,
    decision_id: &str,
    confidence: Confidence,
    trigger_events: Vec<u128>,
    participants: Vec<String>,
) -> (plan: Vec<PlannedWrite>)
    ensures
        plan_views(plan@) == planned(
            state@,
            synthesis@,
            decision_id@,
            confidence,
            trigger_events@,
            views(participants@),
        ),
        plan@.len() >= 1,
{
    let summary = if synthesis.summary.as_str().unicode_len() == 0 {
        synthesis.decision.clone()
    } else {
        synthesis.summary.clone()
    };
    let template = VersionWrite {
        payload: summary,
        confidence,
        trigger_events,
        participants,
        routing: synthesis.routing.clone(),
    };
    let mut plan: Vec<PlannedWrite> = Vec::new();
    plan.push(
        PlannedWrite {
            kind: ObjectKind::Decision,
            id: decision_id.to_owned(),
            tag: String::new(),
            write: write_like(&template, template.payload.clone()),
        },
    );
    let ghost head = plan_views(plan@);
    let updates = &synthesis.org_updates;
    let mut i: usize = 0;
    assert(plan_views(plan@) =~= head + truth_writes(
        state@,
        pair_views(updates@).take(0),
        template@,
    ));
    while i < updates.len()
        invariant
            i <= updates.len(),
            plan@.len() >= 1,
            plan_views(plan@) == head + truth_writes(
                state@,
                pair_views(updates@).take(i as int),
                template@,
            ),
        decreases updates.len() - i,
    {
        proof {
            let all = pair_views(updates@);
            assert(all.take(i + 1).drop_last() =~= all.take(i as int));
        }
        let id = &updates[i].0;
        let content = match state.latest_truth(id.as_str()) {
            Some(c) => c.clone(),
            None => String::new(),
        };
        if content.as_str().unicode_len() > 0 {
            let ghost before = plan_views(plan@);
            let write = PlannedWrite {
                kind: ObjectKind::TruthObject,
                id: id.clone(),
                tag: "org_truth".to_owned(),
                write: write_like(&template, content),
            };
            plan.push(write);
            assert(plan_views(plan@) =~= before.push(write@));
            assert(plan_views(plan@) =~= head + truth_writes(
                state@,
                pair_views(updates@).take(i + 1),
                template@,
            ));
        }
        i += 1;
    }
    assert(pair_views(updates@).take(updates.len() as int) =~= pair_views(updates@));
    plan
}

/// Offers each planned write to the store in turn. Returns the graph nodes
/// touched.
pub fn execute_plan(store: &mut VersionedGraphStore, plan: Vec<PlannedWrite>) -> (nodes: Vec<
    String,
>)
    ensures
        (final(store)@, views(nodes@)) == after_writes(old(store)@, plan_views(plan@)),
{
    let mut nodes: Vec<String> = Vec::new();
    let ghost all = plan_views(plan@);
    for w in it: plan
        invariant
            plan_views(it.seq()) == all,
            (store@, views(nodes@)) == after_writes(old(store)@, all.take(it.index() as int)),
    {
        proof {
            assert(all.take(it.index() + 1).drop_last() =~= all.take(it.index() as int));
        }
        let (_, touched) = write_next(store, w.kind, w.id, w.tag, w.write);
        let mut touched = touched;
        nodes.append(&mut touched);
    }
    assert(all.take(all.len() as int) =~= all);
    nodes
}

/// Concludes a synthesis cycle against a store.
pub fn conclude_cycle(
    state: &mut AppState,
    store: &mut VersionedGraphStore,
    synthesis: &Synthesis,
    decision_id: String,
    topic: String,
    confidence: Confidence,
    trigger_events: Vec<u128>,
    participants: Vec<String>,
    batch: &Vec<Event>,
) -> (t: ReasoningTrace)
    ensures
        ({
            let outcome = concluded(
                old(state)@,
                old(store)@,
                synthesis@,
                decision_id@,
                topic@,
                confidence,
                trigger_events@,
                views(participants@),
                event_views(batch@),
            );
            &&& final(state)@ == outcome.state
            &&& final(store)@ == outcome.store
            &&& t@ == outcome.trace
        }),
{
    apply_org_updates(state, &synthesis.org_updates);
    let plan = plan_writes(
        state,
        synthesis,
        decision_id.as_str(),
        confidence,
        trigger_events,
        participants,
    );
    let version = store.next_decision_version(decision_id.as_str());
    let nodes = execute_plan(store, plan);
    let graph_updates = GraphUpdates { nodes, edges: Vec::new() };
    assert(graph_updates@.edges =~= Seq::<Seq<char>>::empty());
    let trace = OrgBrainNode::trace(decision_id, topic, synthesis, version, batch, graph_updates);
    state.add_trace(trace.clone());
    trace
}

/// Concludes a synthesis cycle where there is no store.
pub fn conclude_unpersisted(
    state: &mut AppState,
    synthesis: &Synthesis,
    decision_id: String,
    topic: String,
    batch: &Vec<Event>,
) -> (t: ReasoningTrace)
    ensures
        (final(state)@, t@) == concluded_unpersisted(
            old(state)@,
            synthesis@,
            decision_id@,
            topic@,
            event_views(batch@),
        ),
{
    apply_org_updates(state, &synthesis.org_updates);
    let graph_updates = GraphUpdates { nodes: Vec::new(), edges: Vec::new() };
    assert(graph_updates@.edges =~= Seq::<Seq<char>>::empty());
    let trace = OrgBrainNode::trace(decision_id, topic, synthesis, 1, batch, graph_updates);
    state.add_trace(trace.clone());
    trace
}

/// What an ask leaves behind and answers.
pub struct AskView {
    pub state: AppStateView,
    pub store: StoreView,
    pub response_text: Seq<char>,
    pub trace: TraceView,
}

/// The state after an exchange with `agent` was remembered.
pub open spec fn with_exchange(
    v: AppStateView,
    agent: Seq<char>,
    said: Seq<char>,
    answered: Seq<char>,
) -> AppStateView {
    AppStateView {
        conversations: v.conversations.insert(
            agent,
            crate::app_state::last_items(
                crate::app_state::turns_of(v, agent).push(("user"@, said)).push(
                    ("assistant"@, answered),
                ),
                crate::app_state::MEMORY_TURNS as nat,
            ),
        ),
        ..v
    }
}

/// The outcome of the second half of an ask, given the completion of stage
/// B and the UUID to use where the completion names no decision: the cycle
/// is concluded with the caller's event as the only trigger and the caller
/// as the only participant, and the exchange is remembered.
pub open spec fn asked(
    v: AppStateView,
    s: StoreView,
    agent: Seq<char>,
    said: Seq<char>,
    topic: Seq<char>,
    confidence: Confidence,
    event_id: u128,
    batch: Seq<EventView>,
    synthesis: SynthesisView,
    fresh: u128,
) -> AskView {
    let outcome = concluded(
        v,
        s,
        synthesis,
        crate::pipeline::decision_id_of(synthesis.decision_id, fresh),
        topic,
        confidence,
        seq![event_id],
        seq![agent],
        batch,
    );
    AskView {
        state: with_exchange(outcome.state, agent, said, synthesis.response_text),
        store: outcome.store,
        response_text: synthesis.response_text,
        trace: outcome.trace,
    }
}

/// The first half of an ask, run on the completion of stage A: reads the
/// completion as a signal, stores its private note, queues the event, and
/// drains the queue. Returns the batch, whose last event is the new one,
/// and that event's id.
pub fn receive_signal(state: &mut AppState, agent: &EmployeeAgentId, completion: &str) -> (r: (
    Vec<Event>,
    u128,
))
    requires
        old(state)@.private_seq < u64::MAX,
    ensures
        ({
            let signal = crate::pipeline::signal_of(
                crate::json::document(completion@),
                completion@,
            );
            let batch = event_views(r.0@);
            let key = crate::app_state::note_key(agent@, old(state)@.private_seq + 1);
            &&& batch.len() == old(state)@.queue.len() + 1
            &&& batch.drop_last() == old(state)@.queue
            &&& batch.last().event_id == r.1
            &&& batch.last().emitted_by == agent@
            &&& batch.last().event_type == signal.event_type
            &&& batch.last().topic == signal.topic
            &&& batch.last().confidence == signal.confidence
            &&& batch.last().references == seq![key]
            &&& final(state)@.queue.len() == 0
            &&& final(state)@.private_seq == old(state)@.private_seq + 1
            &&& final(state)@.notes == old(state)@.notes.insert(
                agent@,
                crate::app_state::notes_of(old(state)@, agent@).insert(key, signal.private_note),
            )
            &&& final(state)@.org_truth == old(state)@.org_truth
            &&& final(state)@.traces == old(state)@.traces
            &&& final(state)@.conversations == old(state)@.conversations
        }),
{
    let signal = crate::pipeline::EmployeeAgentNode::classify(completion);
    let id = crate::pipeline::EmployeeAgentNode::emit(state, agent, signal);
    let batch = state.drain_events();
    (batch, id)
}

/// The second half of an ask, run on the completion of stage B, with the
/// UUID to use where the completion names no decision.
pub fn conclude_ask(
    state: &mut AppState,
    store: &mut VersionedGraphStore,
    agent: &EmployeeAgentId,
    said: String,
    topic: String,
    confidence: Confidence,
    event_id: u128,
    batch: &Vec<Event>,
    completion: &str,
    fresh: u128,
) -> (r: (String, ReasoningTrace))
    ensures
        ({
            let outcome = asked(
                old(state)@,
                old(store)@,
                agent@,
                said@,
                topic@,
                confidence,
                event_id,
                event_views(batch@),
                crate::pipeline::synthesis_of(crate::json::document(completion@), completion@),
                fresh,
            );
            &&& final(state)@ == outcome.state
            &&& final(store)@ == outcome.store
            &&& r.0@ == outcome.response_text
            &&& r.1@ == outcome.trace
        }),
        r.1@.decision_id.len() > 0,
{
    let synthesis = OrgBrainNode::synthesize(completion);
    let decision_id = OrgBrainNode::resolve_decision_id(synthesis.decision_id.clone(), fresh);
    let mut trigger_events: Vec<u128> = Vec::new();
    trigger_events.push(event_id);
    let mut participants: Vec<String> = Vec::new();
    participants.push(agent.0.clone());
    assert(views(participants@) =~= seq![agent@]);
    let trace = conclude_cycle(
        state,
        store,
        &synthesis,
        decision_id,
        topic,
        confidence,
        trigger_events,
        participants,
        batch,
    );
    let response_text = synthesis.response_text.clone();
    state.remember(agent, said, response_text.clone());
    (response_text, trace)
}

/// The second half of an ask, run on the completion of stage B: reads the
/// completion as a synthesis, continues the decision it names or starts a
/// new one under a fresh id, concludes the cycle against the store, and
/// remembers the exchange. Whatever the completion holds, an answer and a
/// trace result, and the trace names a decision.
pub fn ask_and_persist(
    state: &mut AppState,
    store: &mut VersionedGraphStore,
    agent: &EmployeeAgentId,
    said: String,
    topic: String,
    confidence: Confidence,
    event_id: u128,
    batch: &Vec<Event>,
    completion: &str,
) -> (r: (String, ReasoningTrace))
    ensures
        exists|fresh: u128|
            {
                let outcome = #[trigger] asked(
                    old(state)@,
                    old(store)@,
                    agent@,
                    said@,
                    topic@,
                    confidence,
                    event_id,
                    event_views(batch@),
                    crate::pipeline::synthesis_of(
                        crate::json::document(completion@),
                        completion@,
                    ),
                    fresh,
                );
                &&& final(state)@ == outcome.state
                &&& final(store)@ == outcome.store
                &&& r.0@ == outcome.response_text
                &&& r.1@ == outcome.trace
            },
        r.1@.decision_id.len() > 0,
{
    let fresh = crate::domain::fresh_uuid();
    conclude_ask(state, store, agent, said, topic, confidence, event_id, batch, completion, fresh)
}

/// The ids of the events of a batch.
pub fn ids_of(batch: &Vec<Event>) -> (r: Vec<u128>)
    ensures
        r@ == crate::pipeline::batch_ids(event_views(batch@)),
{
    let mut r: Vec<u128> = Vec::new();
    let mut i: usize = 0;
    while i < batch.len()
        invariant
            i <= batch.len(),
            r@ == crate::pipeline::batch_ids(event_views(batch@)).take(i as int),
        decreases batch.len() - i,
    {
        r.push(batch[i].event_id);
        i += 1;
    }
    r
}

/// The emitters of the events of a batch.
pub fn emitters_of(batch: &Vec<Event>) -> (r: Vec<String>)
    ensures
        views(r@) == crate::pipeline::batch_agents(event_views(batch@)),
{
    let mut r: Vec<String> = Vec::new();
    let mut i: usize = 0;
    while i < batch.len()
        invariant
            i <= batch.len(),
            views(r@) == crate::pipeline::batch_agents(event_views(batch@)).take(i as int),
        decreases batch.len() - i,
    {
        let ghost before = views(r@);
        r.push(batch[i].emitted_by.0.clone());
        assert(views(r@) =~= before.push(batch@[i as int].emitted_by@));
        i += 1;
    }
    r
}

/// The outcome of a synthesis on a batch drained from the queue: nothing
/// for an empty batch; else the cycle concluded on the topic `general`,
/// with the confidence of the synthesis, every event of the batch as a
/// trigger and every emitter as a participant.
pub open spec fn synthesized(
    v: AppStateView,
    s: StoreView,
    batch: Seq<EventView>,
    synthesis: SynthesisView,
    fresh: u128,
) -> Option<CycleView> {
    if batch.len() == 0 {
        None
    } else {
        Some(
            concluded(
                v,
                s,
                synthesis,
                crate::pipeline::decision_id_of(synthesis.decision_id, fresh),
                "general"@,
                synthesis.confidence,
                crate::pipeline::batch_ids(batch),
                crate::pipeline::batch_agents(batch),
                batch,
            ),
        )
    }
}

/// Stage B on a batch drained from the queue, run on the completion, with
/// the UUID to use where the completion names no decision. An empty batch
/// is a no-op: the completion is not read, nothing changes, and there is no
/// trace. Else returns the answer and the trace.
pub fn synthesize_batch(
    state: &mut AppState,
    store: &mut VersionedGraphStore,
    batch: &Vec<Event>,
    completion: &str,
    fresh: u128,
) -> (r: Option<(String, ReasoningTrace)>)
    ensures
        ({
            let synthesis = crate::pipeline::synthesis_of(
                crate::json::document(completion@),
                completion@,
            );
            match synthesized(old(state)@, old(store)@, event_views(batch@), synthesis, fresh) {
                None => {
                    &&& r.is_none()
                    &&& final(state)@ == old(state)@
                    &&& final(store)@ == old(store)@
                },
                Some(outcome) => {
                    &&& r matches Some((answer, trace)) && answer@ == synthesis.response_text
                        && trace@ == outcome.trace
                    &&& final(state)@ == outcome.state
                    &&& final(store)@ == outcome.store
                },
            }
        }),
{
    if !OrgBrainNode::has_work(batch) {
        return None;
    }
    let synthesis = OrgBrainNode::synthesize(completion);
    let decision_id = OrgBrainNode::resolve_decision_id(synthesis.decision_id.clone(), fresh);
    let trace = conclude_cycle(
        state,
        store,
        &synthesis,
        decision_id,
        "general".to_owned(),
        synthesis.confidence,
        ids_of(batch),
        emitters_of(batch),
        batch,
    );
    Some((synthesis.response_text.clone(), trace))
}

} // verus!
