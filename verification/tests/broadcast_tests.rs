use orgbrain::broadcast::{Delivery, TraceBroadcaster};
use orgbrain::domain::{EmployeeAgentId, GraphUpdates, ReasoningTrace, Routing};

fn trace(id: &str, topic: &str, routing: &[(&str, &str)]) -> ReasoningTrace {
    let mut r = Routing::new();
    for (agent, level) in routing {
        r.insert(agent.to_string(), level.to_string());
    }
    ReasoningTrace {
        decision_id: id.to_string(),
        topic: topic.to_string(),
        summary: "s".to_string(),
        version: 1,
        rationale: "r".to_string(),
        evidence: vec!["e".to_string()],
        assumptions: vec!["a".to_string()],
        trigger_events: vec![1],
        agents_involved: vec![EmployeeAgentId("employee_bob".to_string())],
        graph_updates: GraphUpdates { nodes: Vec::new(), edges: Vec::new() },
        routing: r,
    }
}

fn ids(batch: &[Delivery]) -> Vec<String> {
    batch
        .iter()
        .map(|d| match d {
            Delivery::Connected => "connected".to_string(),
            Delivery::Trace(t) => t.decision_id.clone(),
        })
        .collect()
}

#[test]
fn a_new_subscriber_gets_the_acknowledgment_and_no_replay() {
    let mut b = TraceBroadcaster::new(8);
    assert_eq!(b.capacity(), 8);
    assert_eq!(b.subscriber_count(), 0);
    b.publish(&trace("before", "infra", &[]));
    let id = b.subscribe(Some("employee_john".to_string()));
    assert_eq!(id, 0);
    assert_eq!(b.subscriber_count(), 1);
    assert_eq!(ids(&b.receive(id)), vec!["connected"]);
    assert!(b.receive(id).is_empty());
}

#[test]
fn each_subscriber_gets_what_it_may_see_in_order() {
    let mut b = TraceBroadcaster::new(8);
    let head = b.subscribe(Some("employee_john".to_string()));
    let bob = b.subscribe(Some("employee_bob".to_string()));
    let sarah = b.subscribe(Some("employee_sarah".to_string()));
    let nobody = b.subscribe(None);
    b.publish(&trace("t1", "infra outage", &[]));
    b.publish(&trace("t2", "company picnic", &[("employee_sarah", "full")]));
    b.publish(&trace("t3", "hiring plan", &[("employee_john", "none")]));
    assert_eq!(ids(&b.receive(head)), vec!["connected", "t1", "t2"]);
    let for_bob = b.receive(bob);
    assert_eq!(ids(&for_bob), vec!["connected", "t1"]);
    match &for_bob[1] {
        Delivery::Trace(t) => {
            assert!(t.evidence.is_empty());
            assert!(t.assumptions.is_empty());
            assert_eq!(t.summary, "s");
        }
        Delivery::Connected => panic!("a trace was expected"),
    }
    let for_sarah = b.receive(sarah);
    assert_eq!(ids(&for_sarah), vec!["connected", "t2", "t3"]);
    match &for_sarah[1] {
        Delivery::Trace(t) => assert_eq!(t.evidence.len(), 1),
        Delivery::Connected => panic!("a trace was expected"),
    }
    assert_eq!(ids(&b.receive(nobody)), vec!["connected"]);
    // Each trace was offered once: nothing is left to receive.
    assert!(b.receive(head).is_empty());
    assert!(b.receive(bob).is_empty());
}

#[test]
fn a_full_buffer_drops_its_oldest_items() {
    let mut b = TraceBroadcaster::new(3);
    let id = b.subscribe(Some("employee_john".to_string()));
    for n in 1..=5 {
        b.publish(&trace(&format!("t{}", n), "x", &[]));
    }
    assert_eq!(ids(&b.receive(id)), vec!["t3", "t4", "t5"]);
    b.publish(&trace("t6", "x", &[]));
    assert_eq!(ids(&b.receive(id)), vec!["t6"]);
}

#[test]
fn a_buffer_without_room_holds_nothing() {
    let mut b = TraceBroadcaster::new(0);
    let id = b.subscribe(Some("employee_john".to_string()));
    b.publish(&trace("t1", "x", &[]));
    assert!(b.receive(id).is_empty());
}

#[test]
fn a_disconnected_subscriber_gets_nothing_and_frees_its_number() {
    let mut b = TraceBroadcaster::new(4);
    let first = b.subscribe(Some("employee_john".to_string()));
    let second = b.subscribe(Some("employee_john".to_string()));
    assert_eq!((first, second), (0, 1));
    b.publish(&trace("t1", "x", &[]));
    b.disconnect(first);
    b.disconnect(17);
    b.publish(&trace("t2", "x", &[]));
    assert!(b.receive(first).is_empty());
    assert_eq!(ids(&b.receive(second)), vec!["connected", "t1", "t2"]);
    let third = b.subscribe(Some("employee_bob".to_string()));
    assert_eq!(third, 0);
    assert_eq!(b.subscriber_count(), 2);
    assert_eq!(ids(&b.receive(third)), vec!["connected"]);
    assert!(b.receive(99).is_empty());
}
