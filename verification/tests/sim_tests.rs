use dwntp::sim::crypto::{event_hash, sign_event, verify_event, SigningKey};
use dwntp::sim::framing::{decode_frame_length, encode_frame, split_frame};
use dwntp::sim::node::{parse_peer_list, produce_event, sensor_reading_payload, MtuNode, PeerVerdict};
use dwntp::sim::types::{ControlEvent, RtuMessage};
use ed25519_dalek::Verifier;
use sha2::Digest;

fn key(b: u8) -> SigningKey {
    SigningKey::from_bytes([b; 32])
}

#[test]
fn sim_event_hash_covers_all_but_signature() {
    let mut e = ControlEvent {
        sender: "mtu-a".to_string(),
        seq: 258,
        prev_hash: [9u8; 32],
        payload: "hello".to_string(),
        verifying_key: vec![1, 2, 3],
        signature: vec![],
    };
    let mut input = b"mtu-a".to_vec();
    input.extend_from_slice(&258u64.to_le_bytes());
    input.extend_from_slice(&[9u8; 32]);
    input.extend_from_slice(b"hello");
    input.extend_from_slice(&[1, 2, 3]);
    let expected: [u8; 32] = sha2::Sha256::digest(&input).into();
    assert_eq!(event_hash(&e), expected);
    e.signature = vec![7; 64];
    assert_eq!(event_hash(&e), expected);
}

#[test]
fn sim_signed_events_verify_with_dalek() {
    let k = key(7);
    let vk = k.verifying_key();
    let dalek = ed25519_dalek::SigningKey::from_bytes(&[7u8; 32]);
    assert_eq!(vk, dalek.verifying_key().to_bytes());
    let mut e = ControlEvent {
        sender: "mtu-a".to_string(),
        seq: 0,
        prev_hash: [0u8; 32],
        payload: "p".to_string(),
        verifying_key: vk.to_vec(),
        signature: vec![],
    };
    sign_event(&mut e, &k);
    assert_eq!(e.signature.len(), 64);
    let sig = ed25519_dalek::Signature::from_slice(&e.signature).unwrap();
    assert!(dalek.verifying_key().verify(&event_hash(&e), &sig).is_ok());
    assert!(verify_event(&e));
    let mut tampered = e.clone();
    tampered.payload = "q".to_string();
    assert!(!verify_event(&tampered));
    let mut short_key = e.clone();
    short_key.verifying_key.pop();
    assert!(!verify_event(&short_key));
    let mut short_sig = e.clone();
    short_sig.signature.pop();
    assert!(!verify_event(&short_sig));
}

#[test]
fn sim_produce_event_chains() {
    let k = key(3);
    let vk = k.verifying_key();
    let mut seq = 5u64;
    let mut prev = [1u8; 32];
    let e = produce_event("mtu-b", &mut seq, &mut prev, &vk, &k, "x".to_string());
    assert_eq!(e.seq, 5);
    assert_eq!(e.prev_hash, [1u8; 32]);
    assert_eq!(seq, 6);
    assert_eq!(prev, event_hash(&e));
    assert!(verify_event(&e));
}

#[test]
fn sim_node_produces_chained_verifiable_events() {
    let mut node = MtuNode::new("mtu-a".to_string(), key(1));
    let first = node.heartbeat();
    assert_eq!(first.payload, "heartbeat from mtu-a");
    assert_eq!(first.seq, 0);
    assert_eq!(first.prev_hash, [0u8; 32]);
    assert!(verify_event(&first));
    let second = node.on_rtu_message(RtuMessage { payload: sensor_reading_payload(0) });
    assert_eq!(second.payload, "sensor-reading:0");
    assert_eq!(second.seq, 1);
    assert_eq!(second.prev_hash, event_hash(&first));
    assert!(verify_event(&second));
    // The node has seen its own events.
    assert_eq!(node.on_peer_event(first.clone()), PeerVerdict::Duplicate);
}

#[test]
fn sim_node_gossips_each_verified_peer_event_once() {
    let mut a = MtuNode::new("mtu-a".to_string(), key(1));
    let mut b = MtuNode::new("mtu-b".to_string(), key(2));
    let e = a.heartbeat();
    assert_eq!(b.on_peer_event(e.clone()), PeerVerdict::Forward(e.clone()));
    assert_eq!(b.on_peer_event(e.clone()), PeerVerdict::Duplicate);
    let mut forged = a.heartbeat();
    forged.payload = "forged".to_string();
    assert_eq!(b.on_peer_event(forged.clone()), PeerVerdict::Rejected);
    assert_eq!(b.on_peer_event(forged), PeerVerdict::Duplicate);
}

#[test]
fn sim_framing_roundtrip() {
    let framed = encode_frame(b"abc");
    assert_eq!(framed, vec![0, 0, 0, 3, b'a', b'b', b'c']);
    assert_eq!(decode_frame_length(&[0, 0, 1, 2]), 258);
    let mut stream = framed.clone();
    stream.extend_from_slice(&[0, 0]);
    assert_eq!(split_frame(&stream), Some((b"abc".to_vec(), vec![0, 0])));
    assert_eq!(split_frame(&[0, 0, 0]), None);
    assert_eq!(split_frame(&[0, 0, 0, 5, 1]), None);
    let big = vec![7u8; 300];
    let framed = encode_frame(&big);
    assert_eq!(&framed[..4], &300u32.to_be_bytes());
    assert_eq!(split_frame(&framed), Some((big, vec![])));
}

#[test]
fn sim_peer_list_skips_empty_entries() {
    assert_eq!(parse_peer_list(""), Vec::<String>::new());
    assert_eq!(
        parse_peer_list("127.0.0.1:18002,,127.0.0.1:18003,"),
        vec!["127.0.0.1:18002".to_string(), "127.0.0.1:18003".to_string()]
    );
    assert_eq!(parse_peer_list("a"), vec!["a".to_string()]);
}

#[test]
fn sim_sensor_reading_payload() {
    assert_eq!(sensor_reading_payload(42), "sensor-reading:42");
    assert_eq!(sensor_reading_payload(u64::MAX), format!("sensor-reading:{}", u64::MAX));
}
