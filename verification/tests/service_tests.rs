use orgbrain::app_state::{AppState, ConversationTurn};
use orgbrain::domain::{
    Confidence, EmployeeAgentId, Event, EventType, GraphUpdates, PrivateStoreKey, Routing,
    Timestamp,
};
use orgbrain::json::JsonShape;
use orgbrain::pipeline::OrgBrainNode;
use orgbrain::service::{
    agent_or_default, apply_org_updates, ask_and_persist, chronological, conclude_ask,
    conclude_cycle, conclude_unpersisted, emitters_of, employee_user_prompt, ids_of,
    execute_plan, ingest_knowledge, ingest_trace, ingest_unpersisted, memory_context,
    plan_ingest, plan_writes, receive_signal, routing_from_text, routing_of_shape,
    synthesize_batch, write_next,
};
use orgbrain::store::{ObjectKind, VersionWrite, VersionedGraphStore};

fn turn(role: &str, content: &str) -> ConversationTurn {
    ConversationTurn { role: role.to_string(), content: content.to_string() }
}

fn event(id: u128, agent: &str) -> Event {
    Event::with_identity(
        id,
        Timestamp { secs: 1, nanos: 2 },
        EmployeeAgentId(agent.to_string()),
        EventType::Update,
        "t".to_string(),
        Confidence::half(),
        Vec::new(),
    )
}

#[test]
fn memory_context_recounts_the_turns() {
    assert_eq!(memory_context(&Vec::new()), "");
    assert_eq!(
        memory_context(&vec![turn("user", "hello"), turn("assistant", "hi there")]),
        "Prior conversation (most recent last):\n- user: hello\n- assistant: hi there\n"
    );
}

#[test]
fn employee_prompt_puts_the_memory_first() {
    assert_eq!(employee_user_prompt(&Vec::new(), "raise the budget"), "raise the budget");
    assert_eq!(
        employee_user_prompt(&vec![turn("user", "hello")], "raise the budget"),
        "Prior conversation (most recent last):\n- user: hello\n\n\nUser: raise the budget"
    );
}

#[test]
fn chronological_reverses_what_was_loaded() {
    assert_eq!(
        chronological(vec![turn("assistant", "3"), turn("user", "2"), turn("assistant", "1")]),
        vec![turn("assistant", "1"), turn("user", "2"), turn("assistant", "3")]
    );
    assert!(chronological(Vec::new()).is_empty());
}

#[test]
fn the_default_agent_acts_where_none_is_named() {
    assert_eq!(agent_or_default(None), EmployeeAgentId("employee_1".to_string()));
    assert_eq!(
        agent_or_default(Some("employee_bob".to_string())),
        EmployeeAgentId("employee_bob".to_string())
    );
}

#[test]
fn routing_of_shape_reads_objects_only() {
    let r = routing_of_shape(Some(JsonShape::Object(vec![
        ("a".to_string(), "\"full\"".to_string()),
        ("b".to_string(), "2".to_string()),
    ])));
    assert_eq!(r.get("a"), Some(&"full".to_string()));
    assert_eq!(r.get("b"), Some(&"none".to_string()));
    assert_eq!(routing_of_shape(Some(JsonShape::Array(Vec::new()))).len(), 0);
    assert_eq!(routing_of_shape(None).len(), 0);
}

#[test]
fn ingest_trace_records_the_ingestion() {
    let mut routing = Routing::new();
    routing.insert("employee_bob".to_string(), "full".to_string());
    let t = ingest_trace(
        "pricing_policy".to_string(),
        "X".to_string(),
        EmployeeAgentId("employee_amy".to_string()),
        99,
        3,
        GraphUpdates { nodes: vec!["n".to_string()], edges: Vec::new() },
        routing,
    );
    assert_eq!(t.decision_id, "pricing_policy");
    assert_eq!(t.topic, "knowledge");
    assert_eq!(t.summary, "X");
    assert_eq!(t.version, 3);
    assert_eq!(t.rationale, "knowledge_ingest");
    assert!(t.evidence.is_empty());
    assert!(t.assumptions.is_empty());
    assert_eq!(t.trigger_events, vec![99]);
    assert_eq!(t.agents_involved, vec![EmployeeAgentId("employee_amy".to_string())]);
    assert_eq!(t.graph_updates.nodes, vec!["n".to_string()]);
    assert_eq!(t.routing.get("employee_bob"), Some(&"full".to_string()));
}

#[test]
fn ingesting_twice_yields_versions_one_and_two() {
    let mut state = AppState::new();
    let mut store = VersionedGraphStore::new();
    let t1 = ingest_knowledge(
        &mut state,
        &mut store,
        "pricing_policy".to_string(),
        "policy".to_string(),
        "X".to_string(),
        None,
        "{\"employee_bob\": \"full\", \"employee_amy\": 1}",
        1,
    );
    assert_eq!(t1.version, 1);
    assert_eq!(t1.summary, "X");
    assert_eq!(t1.decision_id, "pricing_policy");
    assert_eq!(t1.agents_involved, vec![EmployeeAgentId("employee_1".to_string())]);
    assert_eq!(
        t1.graph_updates.nodes,
        vec!["pricing_policy".to_string(), "pricing_policy:v1".to_string()]
    );
    assert_eq!(t1.routing.get("employee_bob"), Some(&"full".to_string()));
    assert_eq!(t1.routing.get("employee_amy"), Some(&"none".to_string()));
    {
        let current = store.current_version(ObjectKind::TruthObject, "pricing_policy").unwrap();
        assert_eq!(current.number, 1);
        assert_eq!(current.payload, "X");
        assert_eq!(current.confidence, Confidence::one());
        assert_eq!(current.trigger_events, vec![1]);
        assert_eq!(current.participants, vec!["employee_1".to_string()]);
    }
    let t2 = ingest_knowledge(
        &mut state,
        &mut store,
        "pricing_policy".to_string(),
        "ignored on update".to_string(),
        "Y".to_string(),
        Some("employee_amy".to_string()),
        "{}",
        2,
    );
    assert_eq!(t2.version, 2);
    assert_eq!(t2.summary, "Y");
    assert_eq!(
        t2.graph_updates.nodes,
        vec!["pricing_policy".to_string(), "pricing_policy:v2".to_string()]
    );
    let chain = store.chain(ObjectKind::TruthObject, "pricing_policy").unwrap();
    assert_eq!(chain.len(), 2);
    assert_eq!(chain.tag(), "policy");
    assert_eq!(chain.version(2).unwrap().payload, "Y");
    assert_eq!(chain.version(2).unwrap().supersedes, Some(1));
    assert!(chain.version(2).unwrap().current);
    assert!(!chain.version(1).unwrap().current);
    assert_eq!(chain.version(1).unwrap().payload, "X");
    assert_eq!(state.latest_truth("pricing_policy"), Some(&"Y".to_string()));
    // Ingestion is broadcast, not logged.
    assert!(state.traces().is_empty());
}

#[test]
fn ingesting_without_a_store_degrades_to_version_one() {
    let mut state = AppState::new();
    for content in ["X", "Y"] {
        let t = ingest_unpersisted(
            &mut state,
            "pricing_policy".to_string(),
            content.to_string(),
            Some("employee_bob".to_string()),
            "[\"not an object\"]",
            5,
        );
        assert_eq!(t.version, 1);
        assert_eq!(t.summary, content);
        assert!(t.graph_updates.nodes.is_empty());
        assert_eq!(t.routing.len(), 0);
        assert_eq!(t.agents_involved, vec![EmployeeAgentId("employee_bob".to_string())]);
    }
    assert_eq!(state.latest_truth("pricing_policy"), Some(&"Y".to_string()));
}

#[test]
fn write_next_reports_the_version_and_the_nodes() {
    let mut store = VersionedGraphStore::new();
    let w = || VersionWrite {
        payload: "p".to_string(),
        confidence: Confidence::half(),
        trigger_events: Vec::new(),
        participants: Vec::new(),
        routing: Routing::new(),
    };
    let (v, nodes) = write_next(&mut store, ObjectKind::Decision, "d".to_string(), String::new(), w());
    assert_eq!(v, 1);
    assert_eq!(nodes, vec!["d".to_string(), "d:v1".to_string()]);
    let (v, nodes) = write_next(&mut store, ObjectKind::Decision, "d".to_string(), String::new(), w());
    assert_eq!(v, 2);
    assert_eq!(nodes, vec!["d".to_string(), "d:v2".to_string()]);
}

#[test]
fn org_updates_are_recorded_in_order() {
    let mut state = AppState::new();
    apply_org_updates(
        &mut state,
        &vec![
            ("a".to_string(), "1".to_string()),
            ("b".to_string(), "2".to_string()),
            ("a".to_string(), "3".to_string()),
        ],
    );
    assert_eq!(state.latest_truth("a"), Some(&"3".to_string()));
    assert_eq!(state.latest_truth("b"), Some(&"2".to_string()));
}

#[test]
fn receive_signal_queues_and_drains() {
    let mut state = AppState::new();
    state.emit(event(5, "employee_amy"));
    let agent = EmployeeAgentId("employee_bob".to_string());
    let (batch, id) = receive_signal(
        &mut state,
        &agent,
        "ok: {\"event_type\": \"concern\", \"topic\": \"infra\", \"private_note\": \"psst\"}",
    );
    assert_eq!(batch.len(), 2);
    assert_eq!(batch[0].event_id, 5);
    assert_eq!(batch[1].event_id, id);
    assert_eq!(batch[1].emitted_by, agent);
    assert_eq!(batch[1].event_type, EventType::Concern);
    assert_eq!(batch[1].topic, "infra");
    assert_eq!(batch[1].confidence, Confidence::half());
    assert_eq!(batch[1].references, vec![PrivateStoreKey("employee_bob:1".to_string())]);
    assert!(state.event_bus.is_empty());
    assert_eq!(state.private_seq(), 1);
}

#[test]
fn a_cycle_writes_the_decision_and_the_truth_updates() {
    let mut state = AppState::new();
    let mut store = VersionedGraphStore::new();
    let batch = vec![event(7, "employee_bob")];
    let synthesis = OrgBrainNode::synthesize(
        "{\"decision_id\": \"d-1\", \"decision\": \"adopt\", \"summary\": \"Adopt the new price list.\", \
         \"rationale\": \"r\", \"response_text\": \"Adopted.\", \"routing\": {\"employee_bob\": \"full\"}, \
         \"org_updates\": {\"pricing_policy\": \"New list\", \"empty\": \"\", \"travel\": \"Trains first\"}}",
    );
    let t = conclude_cycle(
        &mut state,
        &mut store,
        &synthesis,
        "d-1".to_string(),
        "pricing".to_string(),
        Confidence::one(),
        vec![7],
        vec!["employee_bob".to_string()],
        &batch,
    );
    assert_eq!(t.decision_id, "d-1");
    assert_eq!(t.topic, "pricing");
    assert_eq!(t.summary, "Adopt the new price list.");
    assert_eq!(t.version, 1);
    assert_eq!(t.trigger_events, vec![7]);
    assert_eq!(
        t.graph_updates.nodes,
        vec![
            "d-1".to_string(),
            "d-1:v1".to_string(),
            "pricing_policy".to_string(),
            "pricing_policy:v1".to_string(),
            "travel".to_string(),
            "travel:v1".to_string()
        ]
    );
    assert!(t.graph_updates.edges.is_empty());
    assert_eq!(state.traces().len(), 1);
    assert_eq!(state.traces()[0].decision_id, "d-1");
    assert_eq!(state.latest_truth("pricing_policy"), Some(&"New list".to_string()));
    assert_eq!(state.latest_truth("empty"), None);
    let d = store.current_version(ObjectKind::Decision, "d-1").unwrap();
    assert_eq!(d.payload, "Adopt the new price list.");
    assert_eq!(d.confidence, Confidence::one());
    assert_eq!(d.participants, vec!["employee_bob".to_string()]);
    assert_eq!(d.routing.get("employee_bob"), Some(&"full".to_string()));
    let p = store.chain(ObjectKind::TruthObject, "pricing_policy").unwrap();
    assert_eq!(p.tag(), "org_truth");
    assert_eq!(p.current().payload, "New list");
    assert_eq!(p.current().trigger_events, vec![7]);
    assert_eq!(store.current_version(ObjectKind::TruthObject, "travel").unwrap().payload, "Trains first");
    assert!(store.chain(ObjectKind::TruthObject, "empty").is_none());

    // The same decision again continues its lineage.
    let t2 = conclude_cycle(
        &mut state,
        &mut store,
        &synthesis,
        "d-1".to_string(),
        "pricing".to_string(),
        Confidence::one(),
        vec![8],
        vec!["employee_bob".to_string()],
        &batch,
    );
    assert_eq!(t2.version, 2);
    assert_eq!(store.next_decision_version("d-1"), 3);
    assert_eq!(store.next_truth_version("pricing_policy"), 3);
    assert_eq!(state.traces().len(), 2);
}

#[test]
fn a_cycle_without_a_store_yields_version_one() {
    let mut state = AppState::new();
    let synthesis = OrgBrainNode::synthesize("{\"decision\": \"note\", \"org_updates\": {\"t\": \"c\"}}");
    let t = conclude_unpersisted(&mut state, &synthesis, "d".to_string(), "topic".to_string(), &Vec::new());
    assert_eq!(t.version, 1);
    assert_eq!(t.summary, "note");
    assert!(t.graph_updates.nodes.is_empty());
    assert_eq!(state.latest_truth("t"), Some(&"c".to_string()));
    assert_eq!(state.traces().len(), 1);
}

#[test]
fn stray_prose_around_the_json_still_yields_a_trace() {
    let mut state = AppState::new();
    let mut store = VersionedGraphStore::new();
    let agent = EmployeeAgentId("employee_bob".to_string());
    let batch = vec![event(7, "employee_bob")];
    let (answer, trace) = ask_and_persist(
        &mut state,
        &mut store,
        &agent,
        "should we raise prices?".to_string(),
        "pricing".to_string(),
        Confidence::half(),
        7,
        &batch,
        "Of course! Here is the JSON you asked for:\n{\"decision\": \"raise\", \"summary\": \"Raise by 3%\", \
         \"response_text\": \"We will raise prices.\"}\nLet me know if you need anything else.",
    );
    assert_eq!(answer, "We will raise prices.");
    assert_eq!(trace.summary, "Raise by 3%");
    assert_eq!(trace.decision_id.len(), 36);
    assert_eq!(trace.version, 1);
    assert_eq!(trace.trigger_events, vec![7]);
    assert_eq!(
        trace.graph_updates.nodes,
        vec![trace.decision_id.clone(), format!("{}:v1", trace.decision_id)]
    );
    assert_eq!(
        state.recall(&agent),
        vec![turn("user", "should we raise prices?"), turn("assistant", "We will raise prices.")]
    );
    assert_eq!(state.traces().len(), 1);
}

#[test]
fn a_completion_that_is_no_json_still_yields_a_trace() {
    let mut state = AppState::new();
    let mut store = VersionedGraphStore::new();
    let agent = EmployeeAgentId("employee_bob".to_string());
    for raw in ["I'd rather not say.", "", "{{{", "}"] {
        let (answer, trace) = ask_and_persist(
            &mut state,
            &mut store,
            &agent,
            "q".to_string(),
            "general".to_string(),
            Confidence::half(),
            1,
            &Vec::new(),
            raw,
        );
        assert_eq!(answer, raw);
        assert_eq!(trace.summary, "respond");
        assert_eq!(trace.decision_id.len(), 36);
        assert!(trace.evidence.is_empty());
        assert!(trace.assumptions.is_empty());
        assert_eq!(trace.version, 1);
    }
    assert_eq!(state.traces().len(), 4);
}

#[test]
fn conclude_ask_uses_the_given_uuid_only_where_no_id_is_supplied() {
    let mut state = AppState::new();
    let mut store = VersionedGraphStore::new();
    let agent = EmployeeAgentId("employee_bob".to_string());
    let (_, minted) = conclude_ask(
        &mut state,
        &mut store,
        &agent,
        "q".to_string(),
        "t".to_string(),
        Confidence::half(),
        1,
        &Vec::new(),
        "{\"summary\": \"s\"}",
        2,
    );
    assert_eq!(minted.decision_id, "00000000-0000-0000-0000-000000000002");
    let (_, kept) = conclude_ask(
        &mut state,
        &mut store,
        &agent,
        "q".to_string(),
        "t".to_string(),
        Confidence::half(),
        1,
        &Vec::new(),
        "{\"decision_id\": \"00000000-0000-0000-0000-000000000002\", \"summary\": \"s2\"}",
        3,
    );
    assert_eq!(kept.decision_id, "00000000-0000-0000-0000-000000000002");
    assert_eq!(kept.version, 2);
    assert_eq!(state.recall(&agent).len(), 4);
}

#[test]
fn an_empty_batch_is_a_no_op() {
    let mut state = AppState::new();
    let mut store = VersionedGraphStore::new();
    let r = synthesize_batch(
        &mut state,
        &mut store,
        &Vec::new(),
        "{\"decision_id\": \"d\", \"org_updates\": {\"t\": \"c\"}}",
        1,
    );
    assert!(r.is_none());
    assert!(state.traces().is_empty());
    assert_eq!(state.latest_truth("t"), None);
    assert_eq!(store.next_decision_version("d"), 1);
}

#[test]
fn a_batch_is_synthesized_on_the_general_topic() {
    let mut state = AppState::new();
    let mut store = VersionedGraphStore::new();
    let batch = vec![event(1, "employee_amy"), event(2, "employee_bob")];
    let (answer, trace) = synthesize_batch(
        &mut state,
        &mut store,
        &batch,
        "{\"decision_id\": \"d\", \"summary\": \"S\", \"response_text\": \"R\", \"confidence\": 1}",
        9,
    )
    .unwrap();
    assert_eq!(answer, "R");
    assert_eq!(trace.topic, "general");
    assert_eq!(trace.decision_id, "d");
    assert_eq!(trace.trigger_events, vec![1, 2]);
    assert_eq!(
        trace.agents_involved,
        vec![EmployeeAgentId("employee_amy".to_string()), EmployeeAgentId("employee_bob".to_string())]
    );
    let d = store.current_version(ObjectKind::Decision, "d").unwrap();
    assert_eq!(d.trigger_events, vec![1, 2]);
    assert_eq!(d.participants, vec!["employee_amy".to_string(), "employee_bob".to_string()]);
    assert_eq!(d.confidence, Confidence::one());
    assert_eq!(state.traces().len(), 1);
}

#[test]
fn ids_and_emitters_of_a_batch() {
    let batch = vec![event(3, "a"), event(4, "b")];
    assert_eq!(ids_of(&batch), vec![3, 4]);
    assert_eq!(emitters_of(&batch), vec!["a".to_string(), "b".to_string()]);
    assert!(ids_of(&Vec::new()).is_empty());
}

#[test]
fn the_plan_lists_the_decision_and_then_the_truths_with_content() {
    let mut state = AppState::new();
    let synthesis = OrgBrainNode::synthesize(
        "{\"decision\": \"adopt\", \"routing\": {\"employee_bob\": \"full\"}, \
         \"org_updates\": {\"b\": \"two\", \"a\": \"one\"}}",
    );
    apply_org_updates(&mut state, &synthesis.org_updates);
    let plan = plan_writes(
        &state,
        &synthesis,
        "d-1",
        Confidence::one(),
        vec![3],
        vec!["employee_amy".to_string()],
    );
    let listed: Vec<(ObjectKind, &str, &str, &str)> = plan
        .iter()
        .map(|w| (w.kind, w.id.as_str(), w.tag.as_str(), w.write.payload.as_str()))
        .collect();
    assert_eq!(
        listed,
        vec![
            (ObjectKind::Decision, "d-1", "", "adopt"),
            (ObjectKind::TruthObject, "a", "org_truth", "one"),
            (ObjectKind::TruthObject, "b", "org_truth", "two"),
        ]
    );
    for w in &plan {
        assert_eq!(w.write.confidence, Confidence::one());
        assert_eq!(w.write.trigger_events, vec![3]);
        assert_eq!(w.write.participants, vec!["employee_amy".to_string()]);
        assert_eq!(w.write.routing.get("employee_bob"), Some(&"full".to_string()));
    }
    let mut store = VersionedGraphStore::new();
    let nodes = execute_plan(&mut store, plan);
    assert_eq!(
        nodes,
        vec!["d-1", "d-1:v1", "a", "a:v1", "b", "b:v1"].into_iter().map(String::from).collect::<Vec<_>>()
    );
    assert_eq!(store.current_version(ObjectKind::TruthObject, "b").unwrap().payload, "two");
    assert!(execute_plan(&mut store, Vec::new()).is_empty());
}

#[test]
fn an_ingestion_plans_one_truth_write() {
    let mut routing = Routing::new();
    routing.insert("employee_bob".to_string(), "summary".to_string());
    let w = plan_ingest(
        "pricing_policy".to_string(),
        "policy".to_string(),
        "X".to_string(),
        &EmployeeAgentId("employee_amy".to_string()),
        routing,
        17,
    );
    assert_eq!(w.kind, ObjectKind::TruthObject);
    assert_eq!(w.id, "pricing_policy");
    assert_eq!(w.tag, "policy");
    assert_eq!(w.write.payload, "X");
    assert_eq!(w.write.confidence, Confidence::one());
    assert_eq!(w.write.trigger_events, vec![17]);
    assert_eq!(w.write.participants, vec!["employee_amy".to_string()]);
    assert_eq!(w.write.routing.get("employee_bob"), Some(&"summary".to_string()));
}

#[test]
fn routing_is_read_from_json_text() {
    let r = routing_from_text("{\"employee_bob\": \"summary\", \"employee_amy\": null}");
    assert_eq!(r.len(), 2);
    assert_eq!(r.get("employee_bob"), Some(&"summary".to_string()));
    assert_eq!(r.get("employee_amy"), Some(&"none".to_string()));
    assert_eq!(routing_from_text("[]").len(), 0);
    assert_eq!(routing_from_text("not json").len(), 0);
}
