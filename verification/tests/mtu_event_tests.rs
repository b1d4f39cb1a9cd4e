use dwntp::error::Error;
use dwntp::mtu_event::RtuControlEvent;
use sha2::Digest;

#[test]
fn event_test_create_event_with_valid_data() {
    let event = RtuControlEvent::new(
        b"mtu_key_123".to_vec(),
        "RTU_001",
        "BREAKER_OPEN",
        "Open breaker at substation A",
        1_000_000_000u64,
    );

    assert!(event.is_ok());
    let evt = event.unwrap();
    assert_eq!(evt.source_mtu, b"mtu_key_123".to_vec());
    assert_eq!(evt.rtu_id, "RTU_001");
    assert_eq!(evt.event_name, "BREAKER_OPEN");
    assert_eq!(evt.event_description, "Open breaker at substation A");
    assert_eq!(evt.event_timestamp, 1_000_000_000u64);
    assert!(!evt.id.is_empty());
    assert!(evt.on_chain_timestamp.is_none());
}

#[test]
fn event_test_event_id_is_deterministic() {
    let event1 = RtuControlEvent::new(
        b"mtu_key_123".to_vec(),
        "RTU_001",
        "BREAKER_OPEN",
        "Open breaker",
        1_000_000_000u64,
    )
    .unwrap();

    let event2 = RtuControlEvent::new(
        b"mtu_key_123".to_vec(),
        "RTU_001",
        "BREAKER_OPEN",
        "Different description",
        1_000_000_000u64,
    )
    .unwrap();

    // Same source, RTU, event name, and timestamp should produce same ID
    // regardless of description
    assert_eq!(event1.id, event2.id);
}

#[test]
fn event_test_event_id_is_unique_for_different_inputs() {
    let event1 = RtuControlEvent::new(
        b"mtu_key_123".to_vec(),
        "RTU_001",
        "BREAKER_OPEN",
        "Open breaker",
        1_000_000_000u64,
    )
    .unwrap();

    let event2 = RtuControlEvent::new(
        b"mtu_key_456".to_vec(),
        "RTU_001",
        "BREAKER_OPEN",
        "Open breaker",
        1_000_000_000u64,
    )
    .unwrap();

    // Different source MTU should produce different IDs
    assert_ne!(event1.id, event2.id);
}

#[test]
fn event_test_create_event_with_empty_source_mtu() {
    let result = RtuControlEvent::new(vec![], "RTU_001", "BREAKER_OPEN", "Description", 1_000_000_000u64);

    assert!(result.is_err());
    assert_eq!(result.unwrap_err(), Error::MissingSourceMtu);
}

#[test]
fn event_test_create_event_with_empty_rtu_id() {
    let result =
        RtuControlEvent::new(b"mtu_key_123".to_vec(), "", "BREAKER_OPEN", "Description", 1_000_000_000u64);

    assert!(result.is_err());
    assert_eq!(result.unwrap_err(), Error::MissingRtuId);
}

#[test]
fn event_test_create_event_with_empty_event_name() {
    let result =
        RtuControlEvent::new(b"mtu_key_123".to_vec(), "RTU_001", "", "Description", 1_000_000_000u64);

    assert!(result.is_err());
    assert_eq!(result.unwrap_err(), Error::MissingEventName);
}

#[test]
fn event_test_create_event_with_empty_event_description() {
    let result =
        RtuControlEvent::new(b"mtu_key_123".to_vec(), "RTU_001", "BREAKER_OPEN", "", 1_000_000_000u64);

    assert!(result.is_err());
    assert_eq!(result.unwrap_err(), Error::MissingEventDescription);
}

#[test]
fn event_test_event_serialization_to_json() {
    let event = RtuControlEvent::new(
        b"mtu_key_123".to_vec(),
        "RTU_001",
        "BREAKER_OPEN",
        "Open breaker",
        1_000_000_000u64,
    )
    .unwrap();

    let json = event.to_json();
    assert!(json.is_ok());

    let json_str = json.unwrap();
    // source_mtu is base64-encoded in JSON
    assert!(json_str.contains("RTU_001"));
    assert!(json_str.contains("BREAKER_OPEN"));
}

#[test]
fn event_test_event_display_format() {
    let event = RtuControlEvent::new(
        b"mtu_key_123".to_vec(),
        "RTU_001",
        "BREAKER_OPEN",
        "Open breaker",
        1_000_000_000u64,
    )
    .unwrap();

    let display_str = event.summary();
    assert!(display_str.contains("Event(id="));
    assert!(display_str.contains("source_mtu="));
    assert!(display_str.contains("rtu_id=RTU_001"));
    assert!(display_str.contains("event_name=BREAKER_OPEN"));
    assert!(display_str.contains("timestamp=1000000000"));
}

#[test]
fn test_on_chain_timestamp_not_in_json_when_none() {
    let event =
        RtuControlEvent::new(b"mtu_key".to_vec(), "RTU_001", "TEST", "Test event", 1_000_000_000u64)
            .unwrap();

    let json = event.to_json().unwrap();
    assert!(!json.contains("on_chain_timestamp"));
}

#[test]
fn mtu_event_id_is_sha256_of_canonical_json() {
    let event = RtuControlEvent::new(
        b"mtu_key_123".to_vec(),
        "RTU_001",
        "BREAKER_OPEN",
        "Open breaker",
        1_000_000_000u64,
    )
    .unwrap();
    let canonical = "{\"source_mtu\":\"bXR1X2tleV8xMjM=\",\"rtu_id\":\"RTU_001\",\"event_name\":\"BREAKER_OPEN\",\"event_timestamp\":1000000000}";
    let expected = hex::encode(sha2::Sha256::digest(canonical.as_bytes()));
    assert_eq!(event.id, expected);
    assert_eq!(event.id.len(), 64);
}

#[test]
fn mtu_event_json_is_exact() {
    let mut event = RtuControlEvent::new(
        b"mtu_key_123".to_vec(),
        "RTU_001",
        "BREAKER_OPEN",
        "Open \"main\" breaker\n\u{1}",
        5u64,
    )
    .unwrap();
    let expected = format!(
        "{{\"id\":\"{}\",\"source_mtu\":\"bXR1X2tleV8xMjM=\",\"rtu_id\":\"RTU_001\",\"event_name\":\"BREAKER_OPEN\",\"event_description\":\"Open \\\"main\\\" breaker\\n\\u0001\",\"event_timestamp\":5}}",
        event.id
    );
    assert_eq!(event.to_json().unwrap(), expected);
    event.on_chain_timestamp = Some(1_690_000_000_000);
    let with_time = event.to_json().unwrap();
    assert!(with_time.ends_with(",\"event_timestamp\":5,\"on_chain_timestamp\":1690000000000}"));
}

#[test]
fn mtu_event_summary_is_exact() {
    let event =
        RtuControlEvent::new(b"mtu_key_123".to_vec(), "RTU_001", "BREAKER_OPEN", "Open breaker", 0u64)
            .unwrap();
    let expected = format!(
        "Event(id={}, source_mtu=bXR1X2tleV8xMjM=, rtu_id=RTU_001, event_name=BREAKER_OPEN, timestamp=0)",
        event.id
    );
    assert_eq!(event.summary(), expected);
}

#[test]
fn mtu_event_id_changes_with_timestamp() {
    let a = RtuControlEvent::new(b"k".to_vec(), "R", "N", "D", 1u64).unwrap();
    let b = RtuControlEvent::new(b"k".to_vec(), "R", "N", "D", 2u64).unwrap();
    assert_ne!(a.id, b.id);
}

#[test]
fn mtu_event_first_missing_field_wins() {
    let result = RtuControlEvent::new(vec![], "", "", "", 0u64);
    assert_eq!(result.unwrap_err(), Error::MissingSourceMtu);
    let result = RtuControlEvent::new(b"k".to_vec(), "R", "", "", 0u64);
    assert_eq!(result.unwrap_err(), Error::MissingEventName);
}

#[test]
fn mtu_event_id_changes_with_rtu_id_and_event_name() {
    let base = RtuControlEvent::new(b"k".to_vec(), "R", "N", "D", 7u64).unwrap();
    let other_rtu = RtuControlEvent::new(b"k".to_vec(), "S", "N", "D", 7u64).unwrap();
    let other_name = RtuControlEvent::new(b"k".to_vec(), "R", "M", "D", 7u64).unwrap();
    assert_ne!(base.id, other_rtu.id);
    assert_ne!(base.id, other_name.id);
    assert_ne!(other_rtu.id, other_name.id);
}

#[test]
fn mtu_event_id_fields_cannot_bleed_into_each_other() {
    let a = RtuControlEvent::new(b"k".to_vec(), "R\",\"event_name\":\"X", "Y", "D", 1u64).unwrap();
    let b = RtuControlEvent::new(b"k".to_vec(), "R", "X\",\"event_name\":\"Y", "D", 1u64).unwrap();
    assert_ne!(a.id, b.id);
}
