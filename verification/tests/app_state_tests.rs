use orgbrain::app_state::{clone_turns, AppState, ConversationTurn, MEMORY_TURNS};
use orgbrain::domain::{
    Confidence, EmployeeAgentId, Event, EventType, GraphUpdates, PrivateStoreKey, ReasoningTrace,
    Routing, Timestamp,
};

fn agent(id: &str) -> EmployeeAgentId {
    EmployeeAgentId(id.to_string())
}

#[test]
fn a_new_state_is_empty() {
    let state = AppState::new();
    assert_eq!(state.private_seq(), 0);
    assert!(state.traces().is_empty());
    assert!(state.event_bus.is_empty());
    assert_eq!(state.latest_truth("x"), None);
    assert!(state.recall(&agent("employee_1")).is_empty());
}

#[test]
fn private_notes_are_keyed_by_agent_and_sequence() {
    let mut state = AppState::new();
    let k1 = state.store_private(&agent("employee_bob"), "first".to_string());
    let k2 = state.store_private(&agent("employee_amy"), "second".to_string());
    let k3 = state.store_private(&agent("employee_bob"), "third".to_string());
    assert_eq!(k1, PrivateStoreKey("employee_bob:1".to_string()));
    assert_eq!(k2, PrivateStoreKey("employee_amy:2".to_string()));
    assert_eq!(k3, PrivateStoreKey("employee_bob:3".to_string()));
    assert_eq!(state.private_seq(), 3);
}

#[test]
fn emit_and_drain_go_through_the_bus() {
    let mut state = AppState::new();
    let e = |id: u128| {
        Event::with_identity(
            id,
            Timestamp { secs: 1, nanos: 2 },
            agent("a"),
            EventType::Update,
            "t".to_string(),
            Confidence::half(),
            Vec::new(),
        )
    };
    state.emit(e(1));
    state.emit(e(2));
    assert!(!state.event_bus.is_empty());
    assert_eq!(state.drain_events(), vec![e(1), e(2)]);
    assert!(state.drain_events().is_empty());
}

#[test]
fn latest_truth_is_the_newest_content() {
    let mut state = AppState::new();
    state.update_org_truth("pricing_policy", "X".to_string());
    assert_eq!(state.latest_truth("pricing_policy"), Some(&"X".to_string()));
    state.update_org_truth("pricing_policy", "Y".to_string());
    state.update_org_truth("other", "Z".to_string());
    assert_eq!(state.latest_truth("pricing_policy"), Some(&"Y".to_string()));
    assert_eq!(state.latest_truth("other"), Some(&"Z".to_string()));
    assert_eq!(state.latest_truth("missing"), None);
}

#[test]
fn traces_are_appended_in_order() {
    let mut state = AppState::new();
    let t = |id: &str| ReasoningTrace {
        decision_id: id.to_string(),
        topic: "t".to_string(),
        summary: "s".to_string(),
        version: 1,
        rationale: "r".to_string(),
        evidence: Vec::new(),
        assumptions: Vec::new(),
        trigger_events: Vec::new(),
        agents_involved: Vec::new(),
        graph_updates: GraphUpdates { nodes: Vec::new(), edges: Vec::new() },
        routing: Routing::new(),
    };
    state.add_trace(t("a"));
    state.add_trace(t("b"));
    let ids: Vec<&str> = state.traces().iter().map(|t| t.decision_id.as_str()).collect();
    assert_eq!(ids, vec!["a", "b"]);
}

#[test]
fn remember_appends_user_and_assistant_turns() {
    let mut state = AppState::new();
    state.remember(&agent("employee_bob"), "hello".to_string(), "hi".to_string());
    state.remember(&agent("employee_amy"), "x".to_string(), "y".to_string());
    state.remember(&agent("employee_bob"), "how are you".to_string(), "fine".to_string());
    let turn = |role: &str, content: &str| ConversationTurn {
        role: role.to_string(),
        content: content.to_string(),
    };
    assert_eq!(
        state.recall(&agent("employee_bob")),
        vec![
            turn("user", "hello"),
            turn("assistant", "hi"),
            turn("user", "how are you"),
            turn("assistant", "fine")
        ]
    );
    assert_eq!(state.recall(&agent("employee_amy")), vec![turn("user", "x"), turn("assistant", "y")]);
    assert!(state.recall(&agent("nobody")).is_empty());
}

#[test]
fn only_the_last_forty_turns_are_remembered() {
    assert_eq!(MEMORY_TURNS, 40);
    let mut state = AppState::new();
    for i in 0..25 {
        state.remember(&agent("a"), format!("q{}", i), format!("a{}", i));
    }
    let turns = state.recall(&agent("a"));
    assert_eq!(turns.len(), 40);
    assert_eq!(turns[0], ConversationTurn { role: "user".to_string(), content: "q5".to_string() });
    assert_eq!(
        turns[39],
        ConversationTurn { role: "assistant".to_string(), content: "a24".to_string() }
    );
    let mut exact = AppState::new();
    for i in 0..20 {
        exact.remember(&agent("a"), format!("q{}", i), format!("a{}", i));
    }
    let turns = exact.recall(&agent("a"));
    assert_eq!(turns.len(), 40);
    assert_eq!(turns[0].content, "q0");
}

#[test]
fn clone_turns_copies_every_turn() {
    let v = vec![
        ConversationTurn { role: "user".to_string(), content: "a".to_string() },
        ConversationTurn { role: "assistant".to_string(), content: "b".to_string() },
    ];
    assert_eq!(clone_turns(&v), v);
    assert_eq!(v[0].clone(), v[0]);
}

#[test]
fn the_truth_snapshot_lists_every_object_with_its_history() {
    let mut state = AppState::new();
    assert!(state.truth_snapshot().is_empty());
    state.update_org_truth("b", "1".to_string());
    state.update_org_truth("a", "2".to_string());
    state.update_org_truth("b", "3".to_string());
    let mut snapshot = state.truth_snapshot();
    snapshot.sort();
    assert_eq!(
        snapshot,
        vec![
            ("a".to_string(), vec!["2".to_string()]),
            ("b".to_string(), vec!["1".to_string(), "3".to_string()]),
        ]
    );
}
