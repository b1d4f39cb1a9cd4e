use dwntp::pallet::{Config, DispatchError, Error, Event, Origin, Pallet, UnixTime};

struct MockTime;

impl UnixTime for MockTime {
    fn now_millis(&self) -> u64 {
        1690000000000
    }
}

fn new_test_ext() -> Pallet<MockTime> {
    Pallet::new(
        Config { max_rtu_id_len: 64, max_event_name_len: 64, max_event_desc_len: 256 },
        MockTime,
    )
}

#[test]
fn test_log_valid_control_event() {
    let mut dwntp = new_test_ext();

    let event_id = [1u8; 32];
    let rtu_id = b"RTU-001".to_vec();
    let event_name = b"BREAKER_OPEN".to_vec();
    let event_desc = b"Open main breaker at substation A".to_vec();
    let event_timestamp = 1680000000000;

    // Log the event
    assert!(dwntp
        .log_control_event(
            Origin::Signed(1),
            event_id,
            rtu_id.clone(),
            event_name.clone(),
            event_desc.clone(),
            event_timestamp,
        )
        .is_ok());

    // Verify it was stored correctly
    let stored_event = dwntp.control_events(&event_id).expect("Event should be in storage");
    assert_eq!(stored_event.source_mtu, 1);
    assert_eq!(stored_event.rtu_id, rtu_id);
    assert_eq!(stored_event.event_name, event_name);
    assert_eq!(stored_event.event_description, event_desc);
    assert_eq!(stored_event.event_timestamp, event_timestamp);
    assert_eq!(stored_event.on_chain_timestamp, 1690000000000); // From MockTime

    // Verify the event was emitted
    assert!(dwntp.has_event(&Event::ControlEventLogged { event_id, source_mtu: 1 }));
}

#[test]
fn test_duplicate_event_id_fails() {
    let mut dwntp = new_test_ext();
    let event_id = [2u8; 32];
    let rtu_id = b"RTU-002".to_vec();
    let event_name = b"SET_VOLTAGE".to_vec();
    let event_desc = b"Set to 240V".to_vec();
    let event_timestamp = 1680000000000;

    // First submission succeeds
    assert!(dwntp
        .log_control_event(
            Origin::Signed(1),
            event_id,
            rtu_id.clone(),
            event_name.clone(),
            event_desc.clone(),
            event_timestamp,
        )
        .is_ok());

    // Second submission with the same ID fails
    assert_eq!(
        dwntp.log_control_event(
            Origin::Signed(2),
            event_id,
            rtu_id,
            event_name,
            event_desc,
            event_timestamp,
        ),
        Err(DispatchError::Module(Error::EventAlreadyExists))
    );
    assert_eq!(dwntp.control_events(&event_id).unwrap().source_mtu, 1);
    assert!(!dwntp.has_event(&Event::ControlEventLogged { event_id, source_mtu: 2 }));
}

#[test]
fn test_rtu_id_length_limit() {
    let mut dwntp = new_test_ext();
    let event_id = [3u8; 32];
    let rtu_id = vec![b'A'; 65]; // Exceeds MaxRtuIdLen (64)
    let event_name = b"BREAKER_OPEN".to_vec();
    let event_desc = b"Description".to_vec();

    assert_eq!(
        dwntp.log_control_event(Origin::Signed(1), event_id, rtu_id, event_name, event_desc, 1680000000000),
        Err(DispatchError::Module(Error::InvalidRtuId))
    );
    assert!(dwntp.control_events(&event_id).is_none());
}

#[test]
fn test_event_name_length_limit() {
    let mut dwntp = new_test_ext();
    let event_id = [4u8; 32];
    let rtu_id = b"RTU-001".to_vec();
    let event_name = vec![b'B'; 65]; // Exceeds MaxEventNameLen (64)
    let event_desc = b"Description".to_vec();

    assert_eq!(
        dwntp.log_control_event(Origin::Signed(1), event_id, rtu_id, event_name, event_desc, 1680000000000),
        Err(DispatchError::Module(Error::InvalidEventName))
    );
    assert!(dwntp.control_events(&event_id).is_none());
}

#[test]
fn test_event_description_length_limit() {
    let mut dwntp = new_test_ext();
    let event_id = [5u8; 32];
    let rtu_id = b"RTU-001".to_vec();
    let event_name = b"BREAKER_OPEN".to_vec();
    let event_desc = vec![b'C'; 257]; // Exceeds MaxEventDescLen (256)

    assert_eq!(
        dwntp.log_control_event(Origin::Signed(1), event_id, rtu_id, event_name, event_desc, 1680000000000),
        Err(DispatchError::Module(Error::InvalidEventDescription))
    );
    assert!(dwntp.control_events(&event_id).is_none());
}

#[test]
fn test_unsigned_origin_fails() {
    let mut dwntp = new_test_ext();
    let event_id = [6u8; 32];
    let rtu_id = b"RTU-001".to_vec();
    let event_name = b"BREAKER_OPEN".to_vec();
    let event_desc = b"Description".to_vec();

    // Must be signed by an MTU
    assert_eq!(
        dwntp.log_control_event(Origin::Unsigned, event_id, rtu_id, event_name, event_desc, 1680000000000),
        Err(DispatchError::BadOrigin)
    );
    assert!(dwntp.control_events(&event_id).is_none());
}

#[test]
fn pallet_bounds_are_inclusive() {
    let mut dwntp = new_test_ext();
    assert!(dwntp
        .log_control_event(
            Origin::Signed(7),
            [9u8; 32],
            vec![b'A'; 64],
            vec![b'B'; 64],
            vec![b'C'; 256],
            1,
        )
        .is_ok());
    assert_eq!(dwntp.control_events(&[9u8; 32]).unwrap().rtu_id.len(), 64);
}

#[test]
fn pallet_root_origin_is_bad_origin_and_earlier_events_stay() {
    let mut dwntp = new_test_ext();
    assert!(dwntp
        .log_control_event(Origin::Signed(1), [1u8; 32], b"R".to_vec(), b"N".to_vec(), b"D".to_vec(), 5)
        .is_ok());
    assert_eq!(
        dwntp.log_control_event(Origin::Root, [2u8; 32], b"R".to_vec(), b"N".to_vec(), b"D".to_vec(), 5),
        Err(DispatchError::BadOrigin)
    );
    assert!(dwntp
        .log_control_event(Origin::Signed(3), [3u8; 32], b"R3".to_vec(), b"N3".to_vec(), b"D3".to_vec(), 6)
        .is_ok());
    let first = dwntp.control_events(&[1u8; 32]).unwrap();
    assert_eq!(first.source_mtu, 1);
    assert_eq!(first.rtu_id, b"R".to_vec());
    assert!(dwntp.control_events(&[2u8; 32]).is_none());
}

#[test]
fn log_control_event_at_stores_the_given_time() {
    let mut dwntp = new_test_ext();
    let event_id = [9u8; 32];
    assert!(dwntp
        .log_control_event_at(42, Origin::Signed(3), event_id, b"R".to_vec(), b"N".to_vec(), b"D".to_vec(), 7)
        .is_ok());
    let stored = dwntp.control_events(&event_id).unwrap();
    assert_eq!(stored.on_chain_timestamp, 42);
    assert_eq!(stored.event_timestamp, 7);
    assert_eq!(stored.source_mtu, 3);
    assert_eq!(
        dwntp.log_control_event_at(43, Origin::Signed(3), event_id, vec![], vec![], vec![], 8),
        Err(DispatchError::Module(Error::EventAlreadyExists))
    );
    assert_eq!(dwntp.control_events(&event_id).unwrap().on_chain_timestamp, 42);
}
