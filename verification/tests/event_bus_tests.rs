use orgbrain::domain::{Confidence, EmployeeAgentId, Event, EventType, PrivateStoreKey, Timestamp};
use orgbrain::event_bus::EventBus;

fn event(id: u128, topic: &str) -> Event {
    Event::with_identity(
        id,
        Timestamp { secs: 1_700_000_000, nanos: 5 },
        EmployeeAgentId("employee_bob".to_string()),
        EventType::Update,
        topic.to_string(),
        Confidence::half(),
        vec![PrivateStoreKey("employee_bob:1".to_string())],
    )
}

#[test]
fn emit_emit_drain_keeps_order_and_empties() {
    let mut bus = EventBus::new();
    assert!(bus.is_empty());
    bus.emit(event(1, "first"));
    bus.emit(event(2, "second"));
    assert!(!bus.is_empty());
    let batch = bus.drain();
    assert_eq!(batch, vec![event(1, "first"), event(2, "second")]);
    assert!(bus.is_empty());
    assert_eq!(bus.drain(), Vec::<Event>::new());
}

#[test]
fn drain_of_empty_bus_is_empty() {
    let mut bus = EventBus::default();
    assert_eq!(bus.drain(), Vec::<Event>::new());
    assert!(bus.is_empty());
}

#[test]
fn events_emitted_after_a_drain_come_with_the_next() {
    let mut bus = EventBus::new();
    bus.emit(event(1, "a"));
    assert_eq!(bus.drain().len(), 1);
    bus.emit(event(2, "b"));
    bus.emit(event(3, "c"));
    bus.emit(event(4, "d"));
    let ids: Vec<u128> = bus.drain().iter().map(|e| e.event_id).collect();
    assert_eq!(ids, vec![2, 3, 4]);
}

#[test]
fn with_identity_sets_every_field() {
    let e = event(9, "pricing");
    assert_eq!(e.event_id, 9);
    assert_eq!(e.emitted_by, EmployeeAgentId("employee_bob".to_string()));
    assert_eq!(e.event_type, EventType::Update);
    assert_eq!(e.topic, "pricing");
    assert_eq!(e.timestamp, Timestamp { secs: 1_700_000_000, nanos: 5 });
    assert_eq!(e.confidence.bits, 0x3FE0_0000_0000_0000);
    assert_eq!(e.references, vec![PrivateStoreKey("employee_bob:1".to_string())]);
    assert_eq!(e.clone(), e);
}

#[test]
fn new_event_gets_a_fresh_id_and_the_current_time() {
    let make = || {
        Event::new(
            EmployeeAgentId("employee_1".to_string()),
            EventType::Concern,
            "budget".to_string(),
            Confidence::one(),
            Vec::new(),
        )
    };
    let a = make();
    let b = make();
    assert_ne!(a.event_id, b.event_id);
    assert_eq!(a.event_type, EventType::Concern);
    assert_eq!(a.topic, "budget");
    assert_eq!(a.confidence.bits, 0x3FF0_0000_0000_0000);
    assert!(a.references.is_empty());
    assert!(a.timestamp.secs > 1_600_000_000);
    assert!(a.timestamp.nanos < 2_000_000_000);
    assert!(b.timestamp.secs >= a.timestamp.secs);
    // A version-4 UUID carries the version in bits 76..80 and the variant in bits 62..64.
    assert_eq!((a.event_id >> 76) & 0xF, 4);
    assert_eq!((a.event_id >> 62) & 0x3, 2);
}

#[test]
fn uuid_text_is_the_hyphenated_form() {
    for id in [
        0u128,
        1,
        0xa1a2a3a4b1b2c1c2d1d2d3d4d5d6d7d8,
        u128::MAX,
        0x0123456789abcdef0123456789abcdef,
        0x8000_0000_0000_0000_0000_0000_0000_0000,
    ] {
        assert_eq!(orgbrain::domain::hyphenated(id), uuid::Uuid::from_u128(id).to_string());
    }
    assert_eq!(orgbrain::domain::hyphenated(0), "00000000-0000-0000-0000-000000000000");
    assert_eq!(
        orgbrain::domain::hyphenated(0xa1a2a3a4b1b2c1c2d1d2d3d4d5d6d7d8),
        "a1a2a3a4-b1b2-c1c2-d1d2-d3d4d5d6d7d8"
    );
}
