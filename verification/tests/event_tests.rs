use dwntp::error::Error;
use dwntp::event::RtuControlEvent;
use sha2::Digest;

#[test]
fn test_create_event_with_valid_data() {
    let event = RtuControlEvent::new(
        "mtu_key_123",
        "RTU_001",
        "BREAKER_OPEN",
        "Open breaker at substation A",
        1000000000,
    );

    assert!(event.is_ok());
    let evt = event.unwrap();
    assert_eq!(evt.source_mtu, "mtu_key_123");
    assert_eq!(evt.rtu_id, "RTU_001");
    assert_eq!(evt.event_name, "BREAKER_OPEN");
    assert_eq!(evt.event_description, "Open breaker at substation A");
    assert_eq!(evt.event_timestamp, 1000000000);
    assert!(!evt.id.is_empty());
}

#[test]
fn test_event_id_is_deterministic() {
    let event1 =
        RtuControlEvent::new("mtu_key_123", "RTU_001", "BREAKER_OPEN", "Open breaker", 1000000000)
            .unwrap();

    let event2 = RtuControlEvent::new(
        "mtu_key_123",
        "RTU_001",
        "BREAKER_OPEN",
        "Different description",
        1000000000,
    )
    .unwrap();

    // Same source, RTU, event name, and timestamp should produce same ID
    // regardless of description
    assert_eq!(event1.id, event2.id);
}

#[test]
fn test_event_id_is_unique_for_different_inputs() {
    let event1 =
        RtuControlEvent::new("mtu_key_123", "RTU_001", "BREAKER_OPEN", "Open breaker", 1000000000)
            .unwrap();

    let event2 =
        RtuControlEvent::new("mtu_key_456", "RTU_001", "BREAKER_OPEN", "Open breaker", 1000000000)
            .unwrap();

    // Different source MTU should produce different IDs
    assert_ne!(event1.id, event2.id);
}

#[test]
fn test_create_event_with_empty_source_mtu() {
    let result = RtuControlEvent::new("", "RTU_001", "BREAKER_OPEN", "Description", 1000000000);

    assert!(result.is_err());
    assert_eq!(result.unwrap_err(), Error::MissingSourceMtu);
}

#[test]
fn test_create_event_with_empty_rtu_id() {
    let result = RtuControlEvent::new("mtu_key_123", "", "BREAKER_OPEN", "Description", 1000000000);

    assert!(result.is_err());
    assert_eq!(result.unwrap_err(), Error::MissingRtuId);
}

#[test]
fn test_create_event_with_empty_event_name() {
    let result = RtuControlEvent::new("mtu_key_123", "RTU_001", "", "Description", 1000000000);

    assert!(result.is_err());
    assert_eq!(result.unwrap_err(), Error::MissingEventName);
}

#[test]
fn test_create_event_with_empty_event_description() {
    let result = RtuControlEvent::new("mtu_key_123", "RTU_001", "BREAKER_OPEN", "", 1000000000);

    assert!(result.is_err());
    assert_eq!(result.unwrap_err(), Error::MissingEventDescription);
}

#[test]
fn test_event_serialization_to_json() {
    let event =
        RtuControlEvent::new("mtu_key_123", "RTU_001", "BREAKER_OPEN", "Open breaker", 1000000000)
            .unwrap();

    let json = event.to_json();
    assert!(json.is_ok());

    let json_str = json.unwrap();
    assert!(json_str.contains("mtu_key_123"));
    assert!(json_str.contains("RTU_001"));
    assert!(json_str.contains("BREAKER_OPEN"));
}

#[test]
fn test_event_display_format() {
    let event =
        RtuControlEvent::new("mtu_key_123", "RTU_001", "BREAKER_OPEN", "Open breaker", 1000000000)
            .unwrap();

    let display_str = event.summary();
    assert!(display_str.contains("Event(id="));
    assert!(display_str.contains("source_mtu=mtu_key_123"));
    assert!(display_str.contains("rtu_id=RTU_001"));
    assert!(display_str.contains("event_name=BREAKER_OPEN"));
    assert!(display_str.contains("timestamp=1000000000"));
}

#[test]
fn event_id_is_sha256_of_colon_joined_fields() {
    let event =
        RtuControlEvent::new("mtu_key_123", "RTU_001", "BREAKER_OPEN", "Open breaker", -42).unwrap();
    let expected = hex::encode(sha2::Sha256::digest("mtu_key_123:RTU_001:BREAKER_OPEN:-42".as_bytes()));
    assert_eq!(event.id, expected);
}

#[test]
fn event_json_is_exact() {
    let event = RtuControlEvent::new("mtu", "R\\1", "N", "D", i64::MIN).unwrap();
    let expected = format!(
        "{{\"id\":\"{}\",\"source_mtu\":\"mtu\",\"rtu_id\":\"R\\\\1\",\"event_name\":\"N\",\"event_description\":\"D\",\"event_timestamp\":-9223372036854775808}}",
        event.id
    );
    assert_eq!(event.to_json().unwrap(), expected);
}

#[test]
fn event_summary_is_exact() {
    let event = RtuControlEvent::new("mtu", "R", "N", "D", 7).unwrap();
    assert_eq!(
        event.summary(),
        format!("Event(id={}, source_mtu=mtu, rtu_id=R, event_name=N, timestamp=7)", event.id)
    );
}

#[test]
fn error_messages_and_debug_text() {
    assert_eq!(Error::MissingSourceMtu.message(), "source MTU is missing or empty");
    assert_eq!(Error::InvalidEventTimestamp.message(), "event timestamp is invalid");
    assert_eq!(
        Error::SerializationError("boom".to_string()).message(),
        "serialization error: boom"
    );
    assert_eq!(Error::MissingEventName.debug_text(), "MissingEventName");
    assert_eq!(
        Error::IdGenerationError("a\"b".to_string()).debug_text(),
        format!("{:?}", Error::IdGenerationError("a\"b".to_string()))
    );
}

#[test]
fn event_id_changes_with_each_identifying_field() {
    let base = RtuControlEvent::new("k", "R", "N", "D", 7).unwrap();
    let ids = [
        RtuControlEvent::new("j", "R", "N", "D", 7).unwrap().id,
        RtuControlEvent::new("k", "S", "N", "D", 7).unwrap().id,
        RtuControlEvent::new("k", "R", "M", "D", 7).unwrap().id,
        RtuControlEvent::new("k", "R", "N", "D", -7).unwrap().id,
    ];
    for id in ids.iter() {
        assert_ne!(&base.id, id);
    }
}

#[test]
fn event_id_colons_inside_fields_cannot_shift_the_separators() {
    let a = RtuControlEvent::new("a:b", "c", "N", "D", 1).unwrap();
    let b = RtuControlEvent::new("a", "b:c", "N", "D", 1).unwrap();
    assert_ne!(a.id, b.id);
    let expected = hex::encode(sha2::Sha256::digest("a\\:b:c:N:1".as_bytes()));
    assert_eq!(a.id, expected);
    let slash = RtuControlEvent::new("a\\", "R", "N", "D", 1).unwrap();
    let expected = hex::encode(sha2::Sha256::digest("a\\\\:R:N:1".as_bytes()));
    assert_eq!(slash.id, expected);
}

#[test]
fn event_id_is_64_lower_case_hex_digits() {
    let event = RtuControlEvent::new("k", "R", "N", "D", 0).unwrap();
    assert_eq!(event.id.len(), 64);
    assert!(event.id.chars().all(|c| c.is_ascii_digit() || ('a'..='f').contains(&c)));
}
