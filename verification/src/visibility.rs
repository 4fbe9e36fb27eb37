//! Who may see how much of a reasoning trace.
//!
//! A viewer's level for a trace is the level that the trace's routing map
//! gives to that viewer, if it names the viewer; otherwise it follows from
//! the viewer's role and the trace's topic. The level then decides whether
//! the trace is handed over whole, without its evidence and assumptions, or
//! not at all.

use crate::domain::{trace_views, EmployeeRole, ReasoningTrace, Routing, TraceView};
use crate::text::{
    contains_chars, contains_text, lowercase, lowercased, opt_str_view, to_chars, trim, trimmed,
};
use vstd::prelude::*;

verus! {

/// How much of a trace a viewer is given.
#[derive(Debug, Clone, Copy, PartialEq, Eq, Structural)]
pub enum Visibility {
    /// Everything.
    Full,
    /// Everything but evidence and assumptions.
    Summary,
    /// Nothing: the trace is not handed over at all.
    Hidden,
}

/// The level that a routing entry's text stands for. `none` hides the trace
/// and `summary` redacts it; any other text withholds nothing.
pub open spec fn level_of(level: Seq<char>) -> Visibility {
    if level == "none"@ {
        Visibility::Hidden
    } else if level == "summary"@ {
        Visibility::Summary
    } else {
        Visibility::Full
    }
}

/// The text under which a level is written into a routing map.
pub open spec fn level_name(level: Visibility) -> Seq<char> {
    match level {
        Visibility::Full => "full"@,
        Visibility::Summary => "summary"@,
        Visibility::Hidden => "none"@,
    }
}

/// The role of the agent with this id: `employee_john` heads the
/// organization, `employee_sarah` works in HR, everyone else is an engineer.
pub open spec fn role_of(agent: Seq<char>) -> EmployeeRole {
    if agent == "employee_john"@ {
        EmployeeRole::Ceo
    } else if agent == "employee_sarah"@ {
        EmployeeRole::Hr
    } else {
        EmployeeRole::Engineer
    }
}

/// A topic as keywords are looked up in it: trimmed and in lower case.
pub open spec fn folded(topic: Seq<char>) -> Seq<char> {
    lowercased(trimmed(topic))
}

/// Whether a folded topic holds one of the HR keywords.
pub open spec fn hr_topic(t: Seq<char>) -> bool {
    ||| contains_text(t, "hr"@)
    ||| contains_text(t, "people"@)
    ||| contains_text(t, "hiring"@)
    ||| contains_text(t, "policy"@)
    ||| contains_text(t, "compensation"@)
    ||| contains_text(t, "performance"@)
}

/// Whether a folded topic holds one of the engineering keywords.
pub open spec fn engineering_topic(t: Seq<char>) -> bool {
    ||| contains_text(t, "engineer"@)
    ||| contains_text(t, "eng"@)
    ||| contains_text(t, "tech"@)
    ||| contains_text(t, "product"@)
    ||| contains_text(t, "reliab"@)
    ||| contains_text(t, "infra"@)
}

/// The level that a role has by default for a topic.
pub open spec fn default_visibility(role: EmployeeRole, topic: Seq<char>) -> Visibility {
    match role {
        EmployeeRole::Ceo => Visibility::Full,
        EmployeeRole::Hr => if hr_topic(folded(topic)) {
            Visibility::Summary
        } else {
            Visibility::Hidden
        },
        EmployeeRole::Engineer => if engineering_topic(folded(topic)) {
            Visibility::Summary
        } else {
            Visibility::Hidden
        },
    }
}

/// The level of `viewer` for a trace with this routing map and topic.
pub open spec fn resolved(
    routing: Map<Seq<char>, Seq<char>>,
    topic: Seq<char>,
    viewer: Seq<char>,
) -> Visibility {
    if routing.contains_key(viewer) {
        level_of(routing[viewer])
    } else {
        default_visibility(role_of(viewer), topic)
    }
}

/// A trace without its evidence and assumptions.
pub open spec fn redacted(t: TraceView) -> TraceView {
    TraceView { evidence: Seq::empty(), assumptions: Seq::empty(), ..t }
}

/// What a viewer with level `level` is given of the trace `t`.
pub open spec fn applied(t: TraceView, level: Visibility) -> Option<TraceView> {
    match level {
        Visibility::Full => Some(t),
        Visibility::Summary => Some(redacted(t)),
        Visibility::Hidden => None,
    }
}

/// What the viewer `viewer` is given of the trace `t`.
pub open spec fn shown(t: TraceView, viewer: Seq<char>) -> Option<TraceView> {
    applied(t, resolved(t.routing, t.topic, viewer))
}

/// What a subscriber is given of the trace `t`. A subscriber without an
/// identity is given nothing.
pub open spec fn delivered(t: TraceView, viewer: Option<Seq<char>>) -> Option<TraceView> {
    match viewer {
        Some(v) => shown(t, v),
        None => None,
    }
}

/// What `viewer` is given of a trace log, most recent trace first.
pub open spec fn visible_recent_first(log: Seq<TraceView>, viewer: Seq<char>) -> Seq<TraceView>
    decreases log.len(),
{
    if log.len() == 0 {
        Seq::empty()
    } else {
        let older = visible_recent_first(log.drop_last(), viewer);
        match shown(log.last(), viewer) {
            Some(t) => seq![t] + older,
            None => older,
        }
    }
}

/// A trace log, most recent trace first.
pub open spec fn recent_first(log: Seq<TraceView>) -> Seq<TraceView> {
    Seq::new(log.len(), |i: int| log[log.len() - 1 - i])
}

/// The first `limit` items of `s`, or all of `s` if it has no more.
pub open spec fn capped<T>(s: Seq<T>, limit: nat) -> Seq<T> {
    if limit < s.len() {
        s.take(limit as int)
    } else {
        s
    }
}

/// The views of an optional trace.
pub open spec fn opt_trace_view(t: Option<ReasoningTrace>) -> Option<TraceView> {
    match t {
        Some(t) => Some(t@),
        None => None,
    }
}

/// A routing entry for the viewer decides the level, whatever the topic
/// and whatever the viewer's role.
pub proof fn law_explicit_routing_wins(
    routing: Map<Seq<char>, Seq<char>>,
    topic: Seq<char>,
    viewer: Seq<char>,
)
    requires
        routing.contains_key(viewer),
    ensures
        resolved(routing, topic, viewer) == level_of(routing[viewer]),
        routing[viewer] == "full"@ ==> resolved(routing, topic, viewer) == Visibility::Full,
        routing[viewer] == "summary"@ ==> resolved(routing, topic, viewer) == Visibility::Summary,
        routing[viewer] == "none"@ ==> resolved(routing, topic, viewer) == Visibility::Hidden,
{
    reveal_strlit("full");
    reveal_strlit("summary");
    reveal_strlit("none");
    assert("none"@[0] == 'n');
    assert("full"@[0] == 'f');
}

/// The head of the organization sees every trace in full unless a routing
/// entry says otherwise.
pub proof fn law_head_sees_all(routing: Map<Seq<char>, Seq<char>>, topic: Seq<char>)
    requires
        !routing.contains_key("employee_john"@),
    ensures
        resolved(routing, topic, "employee_john"@) == Visibility::Full,
{
}

/// Redaction empties evidence and assumptions and changes nothing else.
pub proof fn law_summary_redacts(t: TraceView)
    ensures
        applied(t, Visibility::Summary) matches Some(r) && {
            &&& r.evidence.len() == 0
            &&& r.assumptions.len() == 0
            &&& r.summary == t.summary
            &&& r.rationale == t.rationale
            &&& r.routing == t.routing
            &&& r.decision_id == t.decision_id
            &&& r.topic == t.topic
            &&& r.version == t.version
            &&& r.trigger_events == t.trigger_events
            &&& r.agents_involved == t.agents_involved
            &&& r.graph_updates == t.graph_updates
        },
        applied(t, Visibility::Full) == Some(t),
        applied(t, Visibility::Hidden).is_none(),
{
}

impl Visibility {
    /// Reads a level from the text of a routing entry.
    pub fn from_level(level: &str) -> (r: Visibility)
        ensures
            r == level_of(level@),
    {
        if level.eq("none") {
            Visibility::Hidden
        } else if level.eq("summary") {
            Visibility::Summary
        } else {
            Visibility::Full
        }
    }

    /// The text under which this level is written into a routing map.
    pub fn as_str(&self) -> (r: &'static str)
        ensures
            r@ == level_name(*self),
    {
        match self {
            Visibility::Full => "full",
            Visibility::Summary => "summary",
            Visibility::Hidden => "none",
        }
    }
}

/// The name under which a role is written.
pub open spec fn role_name(role: EmployeeRole) -> Seq<char> {
    match role {
        EmployeeRole::Ceo => "ceo"@,
        EmployeeRole::Hr => "hr"@,
        EmployeeRole::Engineer => "engineer"@,
    }
}

impl EmployeeRole {
    /// The name under which this role is written.
    pub fn as_str(&self) -> (r: &'static str)
        ensures
            r@ == role_name(*self),
    {
        match self {
            EmployeeRole::Ceo => "ceo",
            EmployeeRole::Hr => "hr",
            EmployeeRole::Engineer => "engineer",
        }
    }
}

/// An employee that the graph is seeded with.
#[derive(Debug, Clone, Copy, PartialEq, Eq)]
pub struct SeedEmployee {
    pub employee_id: &'static str,
    pub name: &'static str,
    pub role: EmployeeRole,
}

/// The employees that the graph is seeded with: John, who heads the
/// organization, Sarah of HR, and Bob, an engineer. Each is seeded with the
/// role that its agent id has.
pub fn seed_employees() -> (r: Vec<SeedEmployee>)
    ensures
        r@.len() == 3,
        r@[0].employee_id@ == "employee_john"@ && r@[0].name@ == "John"@,
        r@[1].employee_id@ == "employee_sarah"@ && r@[1].name@ == "Sarah"@,
        r@[2].employee_id@ == "employee_bob"@ && r@[2].name@ == "Bob"@,
        forall|i: int| 0 <= i < 3 ==> (#[trigger] r@[i]).role == role_of(r@[i].employee_id@),
{
    let mut r: Vec<SeedEmployee> = Vec::new();
    r.push(
        SeedEmployee {
            employee_id: "employee_john",
            name: "John",
            role: employee_role_from_agent_id("employee_john"),
        },
    );
    r.push(
        SeedEmployee {
            employee_id: "employee_sarah",
            name: "Sarah",
            role: employee_role_from_agent_id("employee_sarah"),
        },
    );
    r.push(
        SeedEmployee {
            employee_id: "employee_bob",
            name: "Bob",
            role: employee_role_from_agent_id("employee_bob"),
        },
    );
    r
}

/// The role of the agent with this id.
pub fn employee_role_from_agent_id(agent_id: &str) -> (r: EmployeeRole)
    ensures
        r == role_of(agent_id@),
{
    if agent_id.eq("employee_john") {
        EmployeeRole::Ceo
    } else if agent_id.eq("employee_sarah") {
        EmployeeRole::Hr
    } else {
        EmployeeRole::Engineer
    }
}

/// Whether the keyword occurs in the characters `topic`.
fn mentions(topic: &Vec<char>, keyword: &str) -> (r: bool)
    ensures
        r == contains_text(topic@, keyword@),
{
    let k = to_chars(keyword);
    contains_chars(topic, &k)
}

/// The level that a role has for a topic when the routing map does not name
/// the viewer.
pub fn role_default_visibility(role: &EmployeeRole, topic: &str) -> (r: Visibility)
    ensures
        r == default_visibility(*role, topic@),
{
    let t = lowercase(trim(topic));
    let chars = to_chars(t.as_str());
    match role {
        EmployeeRole::Ceo => Visibility::Full,
        EmployeeRole::Hr => {
            if mentions(&chars, "hr") || mentions(&chars, "people") || mentions(&chars, "hiring")
                || mentions(&chars, "policy") || mentions(&chars, "compensation") || mentions(
                &chars,
                "performance",
            ) {
                Visibility::Summary
            } else {
                Visibility::Hidden
            }
        },
        EmployeeRole::Engineer => {
            if mentions(&chars, "engineer") || mentions(&chars, "eng") || mentions(&chars, "tech")
                || mentions(&chars, "product") || mentions(&chars, "reliab") || mentions(
                &chars,
                "infra",
            ) {
                Visibility::Summary
            } else {
                Visibility::Hidden
            }
        },
    }
}

/// The level of `viewer` under a routing map and a topic.
pub fn resolve_level(routing: &Routing, topic: &str, viewer: &str) -> (r: Visibility)
    ensures
        r == resolved(routing@, topic@, viewer@),
{
    match routing.get(viewer) {
        Some(level) => Visibility::from_level(level.as_str()),
        None => {
            let role = employee_role_from_agent_id(viewer);
            role_default_visibility(&role, topic)
        },
    }
}

/// The level of `viewer` for `trace`.
pub fn resolve(trace: &ReasoningTrace, viewer: &str) -> (r: Visibility)
    ensures
        r == resolved(trace@.routing, trace@.topic, viewer@),
{
    resolve_level(&trace.routing, trace.topic.as_str(), viewer)
}

/// What a viewer with level `level` is given of `trace`: the trace, the
/// trace without evidence and assumptions, or nothing.
pub fn apply(trace: &ReasoningTrace, level: Visibility) -> (r: Option<ReasoningTrace>)
    ensures
        opt_trace_view(r) == applied(trace@, level),
{
    match level {
        Visibility::Full => Some(trace.clone()),
        Visibility::Summary => {
            let mut t = trace.clone();
            t.evidence = Vec::new();
            t.assumptions = Vec::new();
            assert(t@.assumptions =~= Seq::<Seq<char>>::empty());
            Some(t)
        },
        Visibility::Hidden => None,
    }
}

/// What a subscriber with identity `viewer` is given of a newly produced
/// trace. A subscriber without an identity is given nothing.
pub fn deliver(trace: &ReasoningTrace, viewer: Option<&str>) -> (r: Option<ReasoningTrace>)
    ensures
        opt_trace_view(r) == delivered(
            trace@,
            opt_str_view(viewer),
        ),
{
    match viewer {
        Some(v) => apply(trace, resolve(trace, v)),
        None => None,
    }
}

/// The most recent `limit` traces of the log, most recent first, unredacted.
pub fn list_traces(log: &Vec<ReasoningTrace>, limit: usize) -> (r: Vec<ReasoningTrace>)
    ensures
        trace_views(r@) == capped(recent_first(trace_views(log@)), limit as nat),
{
    let mut out: Vec<ReasoningTrace> = Vec::new();
    let mut i: usize = log.len();
    let ghost all = recent_first(trace_views(log@));
    while i > 0 && out.len() < limit
        invariant
            i <= log.len(),
            out.len() == log.len() - i,
            out.len() <= limit,
            all == recent_first(trace_views(log@)),
            trace_views(out@) == all.take(out.len() as int),
        decreases i,
    {
        i -= 1;
        out.push(log[i].clone());
    }
    out
}

/// What `viewer` may see of the log: each trace it may see, redacted as its
/// level asks, most recent first, at most `limit` of them.
pub fn agent_traces(log: &Vec<ReasoningTrace>, viewer: &str, limit: usize) -> (r: Vec<
    ReasoningTrace,
>)
    ensures
        trace_views(r@) == capped(
            visible_recent_first(trace_views(log@), viewer@),
            limit as nat,
        ),
{
    let mut out: Vec<ReasoningTrace> = Vec::new();
    let mut i: usize = log.len();
    let ghost views = trace_views(log@);
    let ghost all = visible_recent_first(views, viewer@);
    proof {
        assert(views.take(i as int) =~= views);
    }
    while i > 0 && out.len() < limit
        invariant
            i <= log.len(),
            out.len() <= limit,
            views == trace_views(log@),
            all == visible_recent_first(views, viewer@),
            all == trace_views(out@) + visible_recent_first(views.take(i as int), viewer@),
        decreases i,
    {
        proof {
            assert(views.take(i as int).drop_last() =~= views.take(i - 1));
        }
        i -= 1;
        match apply(&log[i], resolve(&log[i], viewer)) {
            Some(t) => {
                out.push(t);
                assert(all =~= trace_views(out@) + visible_recent_first(
                    views.take(i as int),
                    viewer@,
                ));
            },
            None => {},
        }
    }
    out
}

} // verus!
