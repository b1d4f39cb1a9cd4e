use dwntp::chaincode::{
    DwntpChaincode, EventInput, PeerReply, RangeReply, ShimReply, StreamStep, TxAction, TxCommand,
    TxEvent, TxOutcome, TxState,
};
use dwntp::mtu_event::RtuControlEvent;

fn args(items: &[&str]) -> Vec<Vec<u8>> {
    items.iter().map(|s| s.as_bytes().to_vec()).collect()
}

fn finish(status: i32, message: &str) -> TxAction {
    TxAction::Finish(TxOutcome { status, message: message.to_string(), payload: vec![] })
}

#[test]
fn chaincode_classifies_stream_messages() {
    let cc = DwntpChaincode;
    assert_eq!(cc.classify(1), StreamStep::Note);
    assert_eq!(cc.classify(2), StreamStep::Note);
    assert_eq!(cc.classify(3), StreamStep::ReplyToInit);
    assert_eq!(cc.classify(4), StreamStep::Note);
    assert_eq!(cc.classify(5), StreamStep::HandleTransaction);
    assert_eq!(cc.classify(13), StreamStep::RouteToPending);
    assert_eq!(cc.classify(7), StreamStep::RouteToPending);
    assert_eq!(cc.classify(42), StreamStep::Unhandled);
    assert_eq!(cc.init_outcome(), TxOutcome { status: 200, message: String::new(), payload: vec![] });
}

#[test]
fn chaincode_begin_transaction_dispatches_by_function() {
    let cc = DwntpChaincode;
    assert_eq!(cc.begin_transaction(&vec![]), finish(500, "Missing function name"));
    assert_eq!(cc.begin_transaction(&args(&["LogEvent"])), finish(500, "Missing event JSON payload"));
    assert_eq!(
        cc.begin_transaction(&args(&["LogEvent", "{}"])),
        TxAction::ParseEventInput { json: "{}".to_string() }
    );
    assert_eq!(cc.begin_transaction(&args(&["QueryEvent"])), finish(500, "Missing event ID parameter"));
    assert_eq!(
        cc.begin_transaction(&args(&["QueryEvent", "abc"])),
        TxAction::GetState { key: "event_abc".to_string(), event_id: "abc".to_string() }
    );
    assert_eq!(
        cc.begin_transaction(&args(&["GetAllEvents"])),
        TxAction::GetStateByRange { start_key: "event_".to_string(), end_key: "event_g".to_string() }
    );
    assert_eq!(cc.begin_transaction(&args(&["Nope"])), finish(500, "Unknown function: Nope"));
    assert_eq!(
        cc.begin_transaction(&vec![vec![0xff, b'x']]),
        finish(500, "Unknown function: \u{FFFD}x")
    );
}

fn input(source: &str) -> EventInput {
    EventInput {
        source_mtu: source.to_string(),
        rtu_id: "RTU-A1".to_string(),
        event_name: "EnableRelay".to_string(),
        event_description: "Event from node 1".to_string(),
        event_timestamp: 1_700_000_000_000,
    }
}

#[test]
fn chaincode_log_event_stores_stamped_json() {
    let cc = DwntpChaincode;
    let action = cc.continue_log_event(Ok(input("VXNlcjE=")), 1_690_000_000_000);
    let mut expected =
        RtuControlEvent::new(b"User1".to_vec(), "RTU-A1", "EnableRelay", "Event from node 1", 1_700_000_000_000)
            .unwrap();
    expected.on_chain_timestamp = Some(1_690_000_000_000);
    match action {
        TxAction::PutState { key, value, event_id } => {
            assert_eq!(event_id, expected.id);
            assert_eq!(key, format!("event_{}", expected.id));
            assert_eq!(String::from_utf8(value).unwrap(), expected.to_json().unwrap());
        }
        other => panic!("unexpected action {:?}", other),
    }
}

#[test]
fn chaincode_log_event_refusals() {
    let cc = DwntpChaincode;
    assert_eq!(
        cc.continue_log_event(Err("Error(\"bad\")".to_string()), 0),
        finish(500, "Invalid event JSON schema: Error(\"bad\")")
    );
    // Text that is not base64 decodes to nothing, so the source is missing.
    assert_eq!(
        cc.continue_log_event(Ok(input("***")), 0),
        finish(500, "Event validation failed: MissingSourceMtu")
    );
    let mut no_name = input("VXNlcjE=");
    no_name.event_name = String::new();
    assert_eq!(cc.continue_log_event(Ok(no_name), 0), finish(500, "Event validation failed: MissingEventName"));
}

#[test]
fn chaincode_finishes_log_event() {
    let cc = DwntpChaincode;
    let id = "abc123".to_string();
    assert_eq!(
        cc.finish_log_event(&id, PeerReply::Response(vec![])),
        TxOutcome { status: 200, message: String::new(), payload: b"abc123".to_vec() }
    );
    assert_eq!(
        cc.finish_log_event(&id, PeerReply::Error(b"denied".to_vec())),
        TxOutcome { status: 500, message: "denied".to_string(), payload: vec![] }
    );
    assert_eq!(
        cc.finish_log_event(&id, PeerReply::Other),
        TxOutcome { status: 200, message: String::new(), payload: vec![] }
    );
}

#[test]
fn chaincode_finishes_query_event() {
    let cc = DwntpChaincode;
    let id = "abc".to_string();
    assert_eq!(
        cc.finish_query_event(&id, PeerReply::Response(vec![])),
        TxOutcome { status: 404, message: "Event abc not found".to_string(), payload: vec![] }
    );
    assert_eq!(
        cc.finish_query_event(&id, PeerReply::Response(b"{\"a\":1}".to_vec())),
        TxOutcome { status: 200, message: String::new(), payload: b"{\"a\":1}".to_vec() }
    );
    assert_eq!(
        cc.finish_query_event(&id, PeerReply::Error(b"x".to_vec())),
        TxOutcome { status: 500, message: "x".to_string(), payload: vec![] }
    );
}

#[test]
fn chaincode_lists_parsable_values() {
    let cc = DwntpChaincode;
    let values = vec![
        Some(b"{\"b\": 2, \"a\": 1}".to_vec()),
        None,
        Some(b"not json".to_vec()),
        Some(b"[1, 2]".to_vec()),
    ];
    assert_eq!(
        cc.finish_get_all_events(RangeReply::Results(values)),
        TxOutcome { status: 200, message: String::new(), payload: b"[{\"a\":1,\"b\":2},[1,2]]".to_vec() }
    );
    assert_eq!(
        cc.finish_get_all_events(RangeReply::Results(vec![])),
        TxOutcome { status: 200, message: String::new(), payload: b"[]".to_vec() }
    );
    assert_eq!(
        cc.finish_get_all_events(RangeReply::Undecodable("bad wire type".to_string())),
        TxOutcome {
            status: 500,
            message: "Failed to decode QueryResponse: bad wire type".to_string(),
            payload: vec![]
        }
    );
}

#[test]
fn chaincode_reply_kind_follows_status() {
    let cc = DwntpChaincode;
    let ok = TxOutcome { status: 200, message: String::new(), payload: b"id".to_vec() };
    assert_eq!(cc.reply_for(ok.clone()), ShimReply::Completed(ok));
    let missing = TxOutcome { status: 404, message: "Event x not found".to_string(), payload: vec![] };
    assert_eq!(cc.reply_for(missing), ShimReply::Error(b"Event x not found".to_vec()));
}

#[test]
fn chaincode_logged_id_reads_back_and_is_listed() {
    let cc = DwntpChaincode;
    let (key, event_id) = match cc.continue_log_event(Ok(input("VXNlcjE=")), 1) {
        TxAction::PutState { key, event_id, .. } => (key, event_id),
        other => panic!("unexpected action {:?}", other),
    };
    let answer = cc.finish_log_event(&event_id, PeerReply::Response(vec![]));
    let query = cc.begin_transaction(&vec![b"QueryEvent".to_vec(), answer.payload.clone()]);
    assert_eq!(query, TxAction::GetState { key: key.clone(), event_id: event_id.clone() });
    assert!(key.as_str() >= "event_" && key.as_str() < "event_g");
}

#[test]
fn chaincode_log_event_transaction_runs_to_one_reply() {
    let cc = DwntpChaincode;
    let (state, command) = cc.tx_step(TxState::Start, TxEvent::Input(Ok(args(&["LogEvent", "{}"]))));
    assert_eq!(state, TxState::AwaitingInput);
    assert_eq!(command, TxCommand::Parse { json: "{}".to_string() });
    let (state, command) = cc.tx_step(state, TxEvent::Parsed(Ok(input("bXR1")), 1_690_000_000_000));
    let mut event = RtuControlEvent::new(
        b"mtu".to_vec(),
        "RTU-A1",
        "EnableRelay",
        "Event from node 1",
        1_700_000_000_000,
    )
    .unwrap();
    event.on_chain_timestamp = Some(1_690_000_000_000);
    assert_eq!(state, TxState::AwaitingWrite { event_id: event.id.clone() });
    assert_eq!(
        command,
        TxCommand::PutState {
            key: format!("event_{}", event.id),
            value: event.to_json().unwrap().into_bytes(),
        }
    );
    let (state, command) = cc.tx_step(state, TxEvent::Peer(PeerReply::Response(vec![])));
    assert_eq!(state, TxState::Done);
    assert_eq!(
        command,
        TxCommand::Reply(ShimReply::Completed(TxOutcome {
            status: 200,
            message: String::new(),
            payload: event.id.clone().into_bytes(),
        }))
    );
    let (state, command) = cc.tx_step(state, TxEvent::Peer(PeerReply::Response(vec![])));
    assert_eq!(state, TxState::Done);
    assert_eq!(command, TxCommand::Ignore);
}

#[test]
fn chaincode_transaction_errors_end_with_an_error_reply() {
    let cc = DwntpChaincode;
    let (state, command) = cc.tx_step(TxState::Start, TxEvent::Input(Err("bad".to_string())));
    assert_eq!(state, TxState::Done);
    assert_eq!(
        command,
        TxCommand::Reply(ShimReply::Error(b"Failed to decode ChaincodeInput: bad".to_vec()))
    );
    let (state, command) = cc.tx_step(TxState::Start, TxEvent::Input(Ok(args(&["LogEvent", "x"]))));
    let (state, command2) = cc.tx_step(state, TxEvent::Parsed(Err("oops".to_string()), 0));
    assert_eq!(command, TxCommand::Parse { json: "x".to_string() });
    assert_eq!(state, TxState::Done);
    assert_eq!(
        command2,
        TxCommand::Reply(ShimReply::Error(b"Invalid event JSON schema: oops".to_vec()))
    );
}

#[test]
fn chaincode_transaction_ignores_what_it_does_not_wait_for() {
    let cc = DwntpChaincode;
    let (state, command) = cc.tx_step(TxState::Start, TxEvent::Peer(PeerReply::Other));
    assert_eq!(state, TxState::Start);
    assert_eq!(command, TxCommand::Ignore);
    let (state, command) = cc.tx_step(TxState::Start, TxEvent::Input(Ok(args(&["GetAllEvents"]))));
    assert_eq!(state, TxState::AwaitingRange);
    assert_eq!(
        command,
        TxCommand::GetStateByRange { start_key: "event_".to_string(), end_key: "event_g".to_string() }
    );
    let (state2, command) = cc.tx_step(state.clone(), TxEvent::Peer(PeerReply::Other));
    assert_eq!(state2, state);
    assert_eq!(command, TxCommand::Ignore);
    let (state, command) = cc.tx_step(state, TxEvent::Range(RangeReply::Results(vec![])));
    assert_eq!(state, TxState::Done);
    assert_eq!(
        command,
        TxCommand::Reply(ShimReply::Completed(TxOutcome {
            status: 200,
            message: String::new(),
            payload: b"[]".to_vec(),
        }))
    );
}
