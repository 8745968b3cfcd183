use alleycat::acp_client::{
    closed_response, missing_pipe, response_outcome, AcpClient, AgentLaunch, Dispatch, Inbound,
    ProcessRole, RequestCounter, StdioMode,
};
use alleycat::lines::{decode_line, encode_line, encode_text_line, LineError};
use serde_json::Value;

fn json(text: &str) -> Value {
    serde_json::from_str(text).unwrap()
}

/// A counter whose next number is `n`.
fn counter(n: u64) -> RequestCounter {
    let mut counter = RequestCounter::new();
    for _ in 0..n {
        counter.next();
    }
    counter
}

fn receive(client: &mut AcpClient, line: &str) -> Inbound {
    client.receive(line.len(), line)
}

#[test]
fn requests_are_written_on_one_line() {
    let mut client = AcpClient::new();
    assert!(!client.is_busy());
    let sent = client
        .send_request(&mut counter(17), "session/prompt", json(r#"{"text": "two\nlines"}"#))
        .unwrap();
    assert!(client.is_busy());
    assert_eq!(sent.id, "17");
    assert_eq!(
        sent.line,
        "{\"id\":\"17\",\"jsonrpc\":\"2.0\",\"method\":\"session/prompt\",\"params\":{\"text\":\"two\\nlines\"}}\n"
    );
}

#[test]
fn notifications_are_written_without_an_id() {
    let client = AcpClient::new();
    assert_eq!(
        client.send_notification("session/cancel", json("[1]")).unwrap(),
        "{\"jsonrpc\":\"2.0\",\"method\":\"session/cancel\",\"params\":[1]}\n"
    );
    assert!(!client.is_busy());
}

#[test]
fn a_response_is_delivered_once() {
    let mut client = AcpClient::new();
    client.send_request(&mut counter(3), "m", Value::Null).unwrap();
    let line = "{\"id\":\"3\",\"result\":{\"ok\":true}}\n";
    match receive(&mut client, line) {
        Inbound::Routed(Dispatch::Deliver { id, frame }) => {
            assert_eq!(id, "3");
            assert_eq!(frame, json(line));
            assert_eq!(client.finish(&frame).unwrap(), json(r#"{"ok": true}"#));
        }
        other => panic!("{:?}", other),
    }
    assert!(!client.is_busy());
    assert!(matches!(
        receive(&mut client, line),
        Inbound::Routed(Dispatch::Unknown { id }) if id == "3"
    ));
}

#[test]
fn a_numeric_id_answers_too() {
    let mut client = AcpClient::new();
    client.send_request(&mut counter(3), "m", Value::Null).unwrap();
    assert!(matches!(
        client.dispatch(json(r#"{"id": 3, "result": 1}"#)),
        Dispatch::Deliver { id, .. } if id == "3"
    ));
}

#[test]
fn ids_of_any_shape_are_looked_up_by_their_text() {
    let mut client = AcpClient::new();
    for (frame, key) in [
        (r#"{"id": null}"#, "null"),
        (r#"{"id": true}"#, "true"),
        (r#"{"id": -4}"#, "-4"),
        (r#"{"id": "x y"}"#, "x y"),
        (r#"{"id": ["a", 1]}"#, "[\"a\",1]"),
        (r#"{"id": {"b": 2}}"#, "{\"b\":2}"),
    ] {
        match client.dispatch(json(frame)) {
            Dispatch::Unknown { id } => assert_eq!(id, key),
            other => panic!("{:?}", other),
        }
    }
    assert!(client.take_pending_notifications().is_empty());
}

#[test]
fn notifications_are_buffered_in_order() {
    let mut client = AcpClient::new();
    client.send_request(&mut counter(1), "m", Value::Null).unwrap();
    for n in 0..3 {
        assert!(matches!(
            receive(&mut client, &format!("{{\"n\":{}}}\n", n)),
            Inbound::Routed(Dispatch::Notify { forward: None })
        ));
    }
    assert_eq!(
        client.take_pending_notifications(),
        [json(r#"{"n":0}"#), json(r#"{"n":1}"#), json(r#"{"n":2}"#)]
    );
    assert!(client.take_pending_notifications().is_empty());
}

#[test]
fn a_request_forgets_earlier_notifications() {
    let mut client = AcpClient::new();
    client.dispatch(json(r#"{"early": 1}"#));
    client.send_request(&mut counter(1), "m", Value::Null).unwrap();
    client.dispatch(json(r#"{"late": 1}"#));
    let response = json(r#"{"id": "1", "result": null}"#);
    client.dispatch(response.clone());
    client.finish(&response).unwrap();
    assert_eq!(client.take_pending_notifications(), [json(r#"{"late": 1}"#)]);
}

#[test]
fn streaming_ends_with_the_response() {
    let mut client = AcpClient::new();
    client.send_request_streaming(&mut counter(1), "m", Value::Null).unwrap();
    let first = json(r#"{"n": 1}"#);
    match client.dispatch(first.clone()) {
        Dispatch::Notify { forward } => assert_eq!(forward, Some(first.clone())),
        other => panic!("{:?}", other),
    }
    let response = json(r#"{"id": "1", "result": 2}"#);
    assert!(matches!(client.dispatch(response.clone()), Dispatch::Deliver { .. }));
    let second = json(r#"{"n": 2}"#);
    assert!(matches!(
        client.dispatch(second.clone()),
        Dispatch::Notify { forward: None }
    ));
    assert_eq!(client.finish(&response).unwrap(), json("2"));
    assert_eq!(client.take_pending_notifications(), [first, second]);
}

#[test]
fn a_lost_subscriber_is_not_forwarded_to() {
    let mut client = AcpClient::new();
    client.send_request_streaming(&mut counter(1), "m", Value::Null).unwrap();
    client.unsubscribe();
    assert!(matches!(
        client.dispatch(json("{}")),
        Dispatch::Notify { forward: None }
    ));
    assert_eq!(client.take_pending_notifications().len(), 1);
    assert!(client.is_busy());
}

#[test]
fn the_next_request_is_not_streamed() {
    let mut client = AcpClient::new();
    client.send_request_streaming(&mut counter(1), "m", Value::Null).unwrap();
    client.write_failed();
    assert!(!client.is_busy());
    client.send_request(&mut counter(2), "m", Value::Null).unwrap();
    assert!(matches!(
        client.dispatch(json("{}")),
        Dispatch::Notify { forward: None }
    ));
    assert!(matches!(
        client.dispatch(json(r#"{"id": "1"}"#)),
        Dispatch::Unknown { .. }
    ));
}

#[test]
fn closing_wakes_the_request_in_flight() {
    let mut client = AcpClient::new();
    client.send_request(&mut counter(9), "m", Value::Null).unwrap();
    assert!(matches!(receive(&mut client, ""), Inbound::Closed));
    let waiting = client.close();
    assert_eq!(waiting.len(), 1);
    assert_eq!(waiting.get(0), "9");
    assert!(client.close().is_empty());
    assert_eq!(
        client.finish(&closed_response()).unwrap_err(),
        "ACP agent connection closed"
    );
    assert!(!client.is_busy());
}

#[test]
fn the_closed_response_is_an_error() {
    assert_eq!(
        closed_response(),
        json(
            r#"{
                "jsonrpc": "2.0", "id": null,
                "error": {"code": -32000, "message": "ACP agent connection closed"}
            }"#
        )
    );
}

#[test]
fn a_response_that_never_comes_is_said_so() {
    let mut client = AcpClient::new();
    client.send_request_streaming(&mut counter(9), "m", Value::Null).unwrap();
    assert_eq!(
        client.disconnected(),
        "ACP agent connection closed before response"
    );
    assert!(!client.is_busy());
    assert!(client.close().is_empty());
}

#[test]
fn outcomes_of_responses() {
    let outcome = |text: &str| response_outcome(&json(text));
    assert_eq!(outcome(r#"{"result": {"a": 1}}"#).unwrap(), json(r#"{"a": 1}"#));
    assert_eq!(outcome("{}").unwrap(), Value::Null);
    assert_eq!(outcome("[]").unwrap(), Value::Null);
    assert_eq!(
        outcome(r#"{"error": {"message": "no such session"}, "result": 1}"#).unwrap_err(),
        "no such session"
    );
    for odd in [
        r#"{"error": null}"#,
        r#"{"error": {}}"#,
        r#"{"error": {"message": 5}}"#,
        r#"{"error": "x"}"#,
    ] {
        assert_eq!(outcome(odd).unwrap_err(), "ACP agent returned an error");
    }
}

#[test]
fn lines_that_are_no_frames_change_nothing() {
    let mut client = AcpClient::new();
    client.send_request(&mut counter(1), "m", Value::Null).unwrap();
    assert!(matches!(receive(&mut client, " \t\r\n"), Inbound::Skipped));
    match receive(&mut client, "  not json \n") {
        Inbound::Malformed { line, .. } => assert_eq!(line, "not json"),
        other => panic!("{:?}", other),
    }
    assert!(client.is_busy());
    assert!(client.take_pending_notifications().is_empty());
    assert_eq!(client.close().len(), 1);
}

#[test]
fn lines_are_read_without_surrounding_white_space() {
    assert_eq!(decode_line(9, "\u{3000} [1] \r\n").unwrap(), json("[1]"));
    let closed = decode_line(0, "").unwrap_err();
    assert!(matches!(closed, LineError::Closed));
    assert_eq!(closed.message(), "stream closed by peer");
    let empty = decode_line(1, "\n").unwrap_err();
    assert!(matches!(empty, LineError::Empty));
    assert_eq!(empty.message(), "empty JSON line");
    let malformed = decode_line(3, " {\n").unwrap_err();
    assert!(matches!(&malformed, LineError::Malformed { line, .. } if line == "{"));
    assert_eq!(malformed.message(), "decoding JSON-RPC line: {");
}

#[test]
fn lines_hold_one_line_break() {
    let value = json(r#"{"text": "a\nb", "n": [1, -2]}"#);
    let text = encode_text_line(&value).unwrap();
    assert_eq!(text, "{\"n\":[1,-2],\"text\":\"a\\nb\"}\n");
    assert_eq!(encode_line(&value).unwrap(), text.as_bytes());
    assert_eq!(decode_line(text.len(), &text).unwrap(), value);
}

#[test]
fn agents_are_started_with_both_pipes() {
    let args = vec!["--acp".to_string(), "x y".to_string()];
    let launch = AgentLaunch::new("devin", &args);
    assert_eq!(launch.program, "devin");
    assert_eq!(launch.args, args);
    assert_eq!(launch.role, ProcessRole::Agent);
    assert_eq!(launch.cwd, None);
    assert!(launch.env.is_empty());
    assert_eq!(launch.stdin, StdioMode::Piped);
    assert_eq!(launch.stdout, StdioMode::Piped);
    assert_eq!(launch.stderr, StdioMode::Null);
    assert_eq!(missing_pipe(true, true), None);
    assert_eq!(missing_pipe(false, false), Some("ACP agent has no stdin pipe"));
    assert_eq!(missing_pipe(false, true), Some("ACP agent has no stdin pipe"));
    assert_eq!(missing_pipe(true, false), Some("ACP agent has no stdout pipe"));
}

#[test]
fn no_two_requests_share_an_id() {
    let mut counter = RequestCounter::new();
    let ids: Vec<String> = (0..12)
        .map(|n| {
            let mut client = AcpClient::new();
            let params = Value::Null;
            if n % 2 == 0 {
                client.send_request(&mut counter, "m", params).unwrap().id
            } else {
                client.send_request_streaming(&mut counter, "m", params).unwrap().id
            }
        })
        .collect();
    let expected: Vec<String> = (0..12).map(|n| n.to_string()).collect();
    assert_eq!(ids, expected);
    assert_eq!(counter.next(), 12);
}

#[test]
fn a_request_is_in_flight_until_its_sender_is_done() {
    let mut client = AcpClient::new();
    assert!(!client.is_answered());
    client.send_request(&mut counter(4), "m", Value::Null).unwrap();
    assert!(client.is_busy() && !client.is_answered());
    let response = json(r#"{"id": "4", "result": 1}"#);
    client.dispatch(response.clone());
    assert!(client.is_busy() && client.is_answered());
    client.finish(&response).unwrap();
    assert!(!client.is_busy() && !client.is_answered());
    client.send_request(&mut counter(5), "m", Value::Null).unwrap();
    assert_eq!(client.close().len(), 1);
    assert!(client.is_answered());
    client.finish(&closed_response()).unwrap_err();
    client.send_request(&mut counter(6), "m", Value::Null).unwrap();
    client.write_failed();
    assert!(!client.is_busy());
}

#[test]
fn values_are_read_back_one_by_one() {
    let values = [
        json(r#"{"a": [1, -2, 18446744073709551615, -9223372036854775808], "b\n\u0001\"\\": "é\u2028\t"}"#),
        json("null"),
        json("\"\""),
        json("{}"),
        json("false"),
        json("[[[]]]"),
    ];
    let mut stream: Vec<u8> = Vec::new();
    for value in &values {
        stream.extend(encode_line(value).unwrap());
    }
    let text = String::from_utf8(stream).unwrap();
    let read: Vec<Value> = text
        .split_inclusive('\n')
        .map(|line| decode_line(line.len(), line).unwrap())
        .collect();
    assert_eq!(read, values);
    let deep = format!("{}1{}", "[".repeat(127), "]".repeat(127));
    let line = encode_text_line(&json(&deep)).unwrap();
    assert_eq!(decode_line(line.len(), &line).unwrap(), json(&deep));
}
