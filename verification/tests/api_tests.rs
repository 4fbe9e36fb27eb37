use orgbrain::api::{
    admit_ask, admit_graph_query, admit_ingest, auth_ok, normalize_employee_name, query_agent_traces,
    query_all_traces, resolve_employee_agent_id, shape_is_object, AskInput, AskRequest,
    AskResponse, HealthResponse, KnowledgeIngestRequest, Pagination, Rejection, ServerEvent,
    DEFAULT_AGENT, DEFAULT_CURRENT_LIMIT, DEFAULT_SNAPSHOT_LIMIT, DEFAULT_TRACE_LIMIT,
};
use orgbrain::app_state::AppState;
use orgbrain::domain::{EmployeeAgentId, GraphUpdates, ReasoningTrace, Routing};
use orgbrain::json::JsonShape;

fn ask(text: Option<&str>, audio: Option<&str>) -> AskRequest {
    AskRequest {
        text: text.map(|s| s.to_string()),
        audio_base64: audio.map(|s| s.to_string()),
        audio_mime: Some("audio/wav".to_string()),
        agent_id: None,
        employee_name: None,
        response_audio: None,
    }
}

fn ingest(truth_id: &str, kind: &str, routing: &str) -> KnowledgeIngestRequest {
    KnowledgeIngestRequest {
        truth_id: truth_id.to_string(),
        kind: kind.to_string(),
        content: "content".to_string(),
        agent_id: None,
        routing: routing.to_string(),
        add_to_rag: None,
    }
}

fn trace(id: &str, topic: &str) -> ReasoningTrace {
    ReasoningTrace {
        decision_id: id.to_string(),
        topic: topic.to_string(),
        summary: "s".to_string(),
        version: 1,
        rationale: "r".to_string(),
        evidence: vec!["e".to_string()],
        assumptions: vec!["a".to_string()],
        trigger_events: vec![1],
        agents_involved: vec![EmployeeAgentId("employee_bob".to_string())],
        graph_updates: GraphUpdates { nodes: Vec::new(), edges: Vec::new() },
        routing: Routing::new(),
    }
}

#[test]
fn defaults_are_as_documented() {
    assert_eq!(DEFAULT_TRACE_LIMIT, 50);
    assert_eq!(DEFAULT_SNAPSHOT_LIMIT, 5000);
    assert_eq!(DEFAULT_CURRENT_LIMIT, 200);
    assert_eq!(DEFAULT_AGENT, "employee_1");
    assert!(HealthResponse::healthy().ok);
    assert_eq!(Pagination { limit: None }.limit_or(50), 50);
    assert_eq!(Pagination { limit: Some(7) }.limit_or(50), 7);
    assert_eq!(Pagination { limit: Some(0) }.limit_or(50), 0);
}

#[test]
fn names_are_trimmed_and_lowercased() {
    assert_eq!(normalize_employee_name("  John "), "john");
    assert_eq!(normalize_employee_name("SARAH"), "sarah");
    assert_eq!(normalize_employee_name("\tBob Smith\n"), "bob smith");
    assert_eq!(normalize_employee_name("   "), "");
}

#[test]
fn credential_gate() {
    assert!(auth_ok(None, None));
    assert!(auth_ok(None, Some("whatever")));
    assert!(auth_ok(Some("k"), Some("k")));
    assert!(!auth_ok(Some("k"), Some("K")));
    assert!(!auth_ok(Some("k"), Some("k ")));
    assert!(!auth_ok(Some("k"), None));
    assert!(auth_ok(Some(""), None));
}

#[test]
fn caller_comes_from_header_then_body_name_then_body_id() {
    assert_eq!(
        resolve_employee_agent_id(Some(" John "), Some("sarah"), Some("agent-7")),
        Some("employee_john".to_string())
    );
    assert_eq!(
        resolve_employee_agent_id(Some("   "), Some(" Sarah"), Some("agent-7")),
        Some("employee_sarah".to_string())
    );
    assert_eq!(
        resolve_employee_agent_id(None, Some(""), Some("  Agent-7 ")),
        Some("Agent-7".to_string())
    );
    assert_eq!(resolve_employee_agent_id(None, None, Some("  ")), None);
    assert_eq!(resolve_employee_agent_id(None, None, None), None);
}

#[test]
fn ask_is_checked_for_credential_first() {
    let r = admit_ask(Some("key"), Some("wrong"), None, &ask(None, None));
    assert_eq!(r, Err(Rejection::Unauthorized));
    let r = admit_ask(Some("key"), None, Some("john"), &ask(Some("hi"), None));
    assert_eq!(r, Err(Rejection::Unauthorized));
}

#[test]
fn ask_without_identity_is_rejected_before_its_input_is_looked_at() {
    let r = admit_ask(None, None, None, &ask(None, None));
    assert_eq!(r, Err(Rejection::MissingIdentity));
    let r = admit_ask(Some("k"), Some("k"), Some("  "), &ask(Some("hi"), None));
    assert_eq!(r, Err(Rejection::MissingIdentity));
}

#[test]
fn ask_takes_text_before_audio() {
    let r = admit_ask(None, None, Some("Bob"), &ask(Some("  hello there "), Some("aGVsbG8=")));
    assert_eq!(r, Ok(("employee_bob".to_string(), AskInput::Text("hello there".to_string()))));
}

#[test]
fn ask_decodes_audio_when_text_is_blank() {
    let r = admit_ask(None, None, Some("Bob"), &ask(Some("   "), Some(" aGVsbG8= ")));
    assert_eq!(
        r,
        Ok((
            "employee_bob".to_string(),
            AskInput::Audio { bytes: vec![104, 101, 108, 108, 111], mime: Some("audio/wav".to_string()) }
        ))
    );
    let mut request = ask(None, Some("AAEC"));
    request.audio_mime = None;
    request.agent_id = Some("agent-9".to_string());
    let r = admit_ask(None, None, None, &request);
    assert_eq!(r, Ok(("agent-9".to_string(), AskInput::Audio { bytes: vec![0, 1, 2], mime: None })));
}

#[test]
fn ask_with_invalid_audio_is_rejected() {
    let r = admit_ask(None, None, Some("Bob"), &ask(None, Some("@@not base64@@")));
    assert_eq!(r, Err(Rejection::InvalidAudio));
    let r = admit_ask(None, None, Some("Bob"), &ask(None, Some("aGVsbG8")));
    assert_eq!(r, Err(Rejection::InvalidAudio));
}

#[test]
fn ask_without_input_is_rejected() {
    let r = admit_ask(None, None, Some("Bob"), &ask(None, None));
    assert_eq!(r, Err(Rejection::MissingInput));
    let r = admit_ask(None, None, Some("Bob"), &ask(Some(" "), Some("  ")));
    assert_eq!(r, Err(Rejection::MissingInput));
}

#[test]
fn ingest_checks_run_in_order() {
    assert_eq!(admit_ingest(None, None, &ingest("t", "policy", "{}")), Ok(()));
    assert_eq!(
        admit_ingest(None, None, &ingest("t", "policy", "{\"employee_bob\": \"full\"}")),
        Ok(())
    );
    assert_eq!(
        admit_ingest(Some("k"), Some("x"), &ingest("", "", "[]")),
        Err(Rejection::Unauthorized)
    );
    assert_eq!(admit_ingest(None, None, &ingest("  ", "", "[]")), Err(Rejection::EmptyTruthId));
    assert_eq!(admit_ingest(None, None, &ingest("t", " \t", "[]")), Err(Rejection::EmptyKind));
    assert_eq!(admit_ingest(None, None, &ingest("t", "k", "[]")), Err(Rejection::RoutingNotObject));
    assert_eq!(admit_ingest(None, None, &ingest("t", "k", "null")), Err(Rejection::RoutingNotObject));
    assert_eq!(
        admit_ingest(None, None, &ingest("t", "k", "not json")),
        Err(Rejection::RoutingNotObject)
    );
}

#[test]
fn shape_is_object_only_for_objects() {
    assert!(shape_is_object(&Some(JsonShape::Object(Vec::new()))));
    assert!(!shape_is_object(&Some(JsonShape::Array(Vec::new()))));
    assert!(!shape_is_object(&Some(JsonShape::Null)));
    assert!(!shape_is_object(&None));
}

#[test]
fn rejections_carry_status_and_message() {
    assert_eq!(Rejection::Unauthorized.status(), 401);
    assert_eq!(Rejection::Forbidden.status(), 403);
    assert_eq!(Rejection::StoreUnavailable.status(), 500);
    for r in [
        Rejection::MissingIdentity,
        Rejection::InvalidAudio,
        Rejection::MissingInput,
        Rejection::EmptyTruthId,
        Rejection::EmptyKind,
        Rejection::RoutingNotObject,
    ] {
        assert_eq!(r.status(), 400);
    }
    assert_eq!(Rejection::Unauthorized.message(), "unauthorized");
    assert_eq!(Rejection::MissingIdentity.message(), "missing x-employee-name");
    assert_eq!(Rejection::InvalidAudio.message(), "audio_base64 must be valid base64");
    assert_eq!(Rejection::MissingInput.message(), "provide either non-empty text or audio_base64");
    assert_eq!(Rejection::EmptyTruthId.message(), "truth_id must be non-empty");
    assert_eq!(Rejection::EmptyKind.message(), "kind must be non-empty");
    assert_eq!(
        Rejection::RoutingNotObject.message(),
        "routing must be an object mapping agent_id -> level"
    );
    assert_eq!(Rejection::Forbidden.message(), "forbidden");
    assert_eq!(Rejection::StoreUnavailable.message(), "neo4j not initialized");
}

#[test]
fn only_the_head_may_list_all_traces() {
    let mut state = AppState::new();
    state.add_trace(trace("a", "company picnic"));
    state.add_trace(trace("b", "infra outage"));
    let page = Pagination { limit: None };
    let ids = |r: Result<Vec<ReasoningTrace>, Rejection>| {
        r.map(|v| v.into_iter().map(|t| t.decision_id).collect::<Vec<_>>())
    };
    assert_eq!(
        ids(query_all_traces(None, None, Some("John"), &page, &state)),
        Ok(vec!["b".to_string(), "a".to_string()])
    );
    assert_eq!(
        ids(query_all_traces(None, None, Some("John"), &Pagination { limit: Some(1) }, &state)),
        Ok(vec!["b".to_string()])
    );
    assert_eq!(ids(query_all_traces(None, None, Some("bob"), &page, &state)), Err(Rejection::Forbidden));
    assert_eq!(ids(query_all_traces(None, None, None, &page, &state)), Err(Rejection::MissingIdentity));
    assert_eq!(
        ids(query_all_traces(Some("k"), None, Some("John"), &page, &state)),
        Err(Rejection::Unauthorized)
    );
}

#[test]
fn an_agent_may_see_its_own_view_and_the_head_may_see_any() {
    let mut state = AppState::new();
    state.add_trace(trace("a", "company picnic"));
    state.add_trace(trace("b", "infra outage"));
    let page = Pagination { limit: None };
    let own = query_agent_traces(None, None, Some("Bob"), "employee_bob", &page, &state).unwrap();
    assert_eq!(own.len(), 1);
    assert_eq!(own[0].decision_id, "b");
    assert!(own[0].evidence.is_empty());
    let by_head = query_agent_traces(None, None, Some("john"), "employee_bob", &page, &state).unwrap();
    assert_eq!(by_head.len(), 1);
    let heads = query_agent_traces(None, None, Some("john"), "employee_john", &page, &state).unwrap();
    assert_eq!(heads.len(), 2);
    assert_eq!(heads[0].evidence.len(), 1);
    assert_eq!(
        query_agent_traces(None, None, Some("sarah"), "employee_bob", &page, &state).err(),
        Some(Rejection::Forbidden)
    );
    assert_eq!(
        query_agent_traces(None, None, None, "employee_bob", &page, &state).err(),
        Some(Rejection::MissingIdentity)
    );
    assert_eq!(
        query_agent_traces(Some("k"), Some("no"), Some("bob"), "employee_bob", &page, &state).err(),
        Some(Rejection::Unauthorized)
    );
    assert!(query_agent_traces(None, None, Some("Bob"), "employee_bob", &Pagination { limit: Some(0) }, &state)
        .unwrap()
        .is_empty());
}

#[test]
fn ask_response_carries_speech_in_base64() {
    let r = AskResponse::new("Done.".to_string(), trace("d", "t"), Some(vec![104, 101, 108, 108, 111]));
    assert_eq!(r.response_text, "Done.");
    assert_eq!(r.trace.decision_id, "d");
    assert_eq!(r.audio_base64, Some("aGVsbG8=".to_string()));
    assert_eq!(r.audio_mime, Some("audio/mpeg".to_string()));
    let r = AskResponse::new("Done.".to_string(), trace("d", "t"), Some(Vec::new()));
    assert_eq!(r.audio_base64, Some(String::new()));
    let r = AskResponse::new("Done.".to_string(), trace("d", "t"), None);
    assert_eq!(r.audio_base64, None);
    assert_eq!(r.audio_mime, None);
}

#[test]
fn server_events_wrap_traces() {
    let ServerEvent::Trace(t) = ServerEvent::Trace(trace("d", "t"));
    assert_eq!(t.decision_id, "d");
}

#[test]
fn graph_queries_need_the_credential_and_the_store() {
    assert_eq!(admit_graph_query(None, None, true), Ok(()));
    assert_eq!(admit_graph_query(Some("k"), Some("k"), true), Ok(()));
    assert_eq!(admit_graph_query(None, None, false), Err(Rejection::StoreUnavailable));
    assert_eq!(admit_graph_query(Some("k"), None, false), Err(Rejection::Unauthorized));
    assert_eq!(admit_graph_query(Some("k"), Some("x"), true), Err(Rejection::Unauthorized));
}
