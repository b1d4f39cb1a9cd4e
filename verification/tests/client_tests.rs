use dwntp::client::{
    all_events_result, call_args_json, escape_single_quotes, invoke_command, invoke_report,
    log_event_call_args, query_command, query_result, InvokeReport,
};

#[test]
fn client_log_event_args() {
    let args = log_event_call_args("MTU-01", "RTU-999", "SwitchBreaker", "Turn off breaker 5", 1700000000123);
    assert_eq!(
        args,
        vec![
            "TVRVLTAx".to_string(),
            "RTU-999".to_string(),
            "SwitchBreaker".to_string(),
            "Turn off breaker 5".to_string(),
            "1700000000123".to_string(),
        ]
    );
    let json = call_args_json("LogEvent", &args);
    assert_eq!(
        json,
        "{\"Args\":[\"TVRVLTAx\",\"RTU-999\",\"SwitchBreaker\",\"Turn off breaker 5\",\"1700000000123\"],\"function\":\"LogEvent\"}"
    );
    let mut map = serde_json::Map::new();
    map.insert("function".to_string(), serde_json::Value::String("LogEvent".to_string()));
    map.insert(
        "Args".to_string(),
        serde_json::Value::Array(args.iter().map(|a| serde_json::Value::String(a.clone())).collect()),
    );
    assert_eq!(serde_json::to_string(&serde_json::Value::Object(map)).unwrap(), json);
}

#[test]
fn client_call_args_without_arguments() {
    assert_eq!(call_args_json("GetAllEvents", &vec![]), "{\"Args\":[],\"function\":\"GetAllEvents\"}");
}

#[test]
fn client_commands_quote_for_the_shell() {
    assert_eq!(escape_single_quotes("it's"), "it'\\''s");
    assert_eq!(escape_single_quotes("plain"), "plain");
    assert_eq!(
        query_command("{\"x\":\"'\"}"),
        "peer chaincode query -C dwntpchannel -n dwntp -c '{\"x\":\"'\\''\"}'"
    );
    assert_eq!(
        invoke_command("{}"),
        "peer chaincode invoke -o orderer.dwntp.com:7050 --tls --cafile $ORDERER_CA -C dwntpchannel -n dwntp -c '{}'"
    );
}

#[test]
fn client_reads_event_id_from_report() {
    let report = "2024 INFO Chaincode invoke successful. result: status:200 payload:\"abc123\" \n";
    assert_eq!(invoke_report(report), InvokeReport::EventId("abc123".to_string()));
    assert_eq!(invoke_report("Chaincode invoke successful. result: status:200"), InvokeReport::Logs);
    assert_eq!(invoke_report("something else payload:\"x\""), InvokeReport::Nothing);
    assert_eq!(invoke_report("Chaincode invoke successful payload:\"unterminated"), InvokeReport::Nothing);
}

#[test]
fn client_pretty_prints_json_query_results() {
    assert_eq!(query_result("{\"a\":1}"), "{\n  \"a\": 1\n}");
    assert_eq!(query_result("not json"), "not json");
    assert_eq!(all_events_result(""), "No events found.");
    assert_eq!(all_events_result("[]"), "[]");
    assert_eq!(all_events_result("[1]"), "[\n  1\n]");
}
