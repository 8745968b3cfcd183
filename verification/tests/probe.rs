use alleycat::probe::{
    agents_text, choose_node, choose_token, dial_banner, inbound_text, opening_request, outbound_text, Action,
    Effect, Event, Next, Probe, ProbeArgs, Request, Stage,
};
use iroh::SecretKey;
use serde_json::Value;

fn json(text: &str) -> Value {
    serde_json::from_str(text).unwrap()
}

fn args() -> ProbeArgs {
    ProbeArgs {
        agent: Some("pi".to_string()),
        method: None,
        params: "{}".to_string(),
        node_id: None,
        token: None,
        linger_secs: 5,
        timeout_secs: 30,
    }
}

fn probe(args: &ProbeArgs) -> Probe {
    Probe::new(args, "pi", "1.2.3").unwrap()
}

/// The probe, connected.
fn initializing(args: &ProbeArgs) -> Probe {
    let mut p = probe(args);
    p.advance(Event::Ack { ok: true, error: None });
    p
}

/// The probe, with the handshake behind it.
fn calling(args: &ProbeArgs) -> Probe {
    let mut p = initializing(args);
    p.advance(Event::Frame(json(r#"{"id": 1}"#)));
    p
}

fn sent(action: &Action) -> Vec<Value> {
    action
        .effects
        .iter()
        .filter_map(|e| match e {
            Effect::Send { value, shown } => {
                assert_eq!(shown, &outbound_text(value));
                Some(value.clone())
            }
            _ => None,
        })
        .collect()
}

fn said(action: &Action) -> Vec<String> {
    action
        .effects
        .iter()
        .filter_map(|e| match e {
            Effect::Note(line) => Some(line.clone()),
            Effect::Inbound(line) => Some(line.clone()),
            Effect::Send { .. } => None,
        })
        .collect()
}

#[test]
fn an_accepted_connection_begins_the_handshake() {
    let mut p = probe(&args());
    assert_eq!(p.stage(), Stage::Connecting);
    let action = p.advance(Event::Ack { ok: true, error: None });
    assert_eq!(said(&action), ["probe: connect ok agent=pi; switching to JSONL"]);
    assert_eq!(
        sent(&action),
        [json(
            r#"{
                "jsonrpc": "2.0", "id": 1, "method": "initialize",
                "params": {
                    "clientInfo": {"name": "alleycat-probe", "version": "1.2.3", "title": "alleycat-probe"},
                    "capabilities": {}
                }
            }"#
        )]
    );
    assert!(matches!(action.effects[0], Effect::Note(_)));
    assert!(matches!(action.next, Next::ReadWithin(30)));
    assert_eq!(p.stage(), Stage::Initializing);
}

#[test]
fn a_rejected_connection_fails() {
    for (error, message) in [
        (Some("bad token".to_string()), "connect rejected: bad token"),
        (None, "connect rejected: <no error>"),
    ] {
        let mut p = probe(&args());
        let action = p.advance(Event::Ack { ok: false, error });
        assert!(action.effects.is_empty());
        assert!(matches!(action.next, Next::Fail(text) if text == message));
        assert_eq!(p.stage(), Stage::Done);
    }
}

#[test]
fn the_method_is_called_once_initialize_is_answered() {
    let mut a = args();
    a.method = Some("thread/read".to_string());
    a.params = r#"{"threadId": "t"}"#.to_string();
    let mut p = initializing(&a);
    let note = json(r#"{"method": "warning"}"#);
    let action = p.advance(Event::Frame(note.clone()));
    assert_eq!(said(&action), [inbound_text(&note)]);
    assert!(sent(&action).is_empty());
    assert!(matches!(action.next, Next::ReadWithin(30)));
    assert_eq!(p.stage(), Stage::Initializing);

    let answer = json(r#"{"id": 1, "result": {}}"#);
    let action = p.advance(Event::Frame(answer.clone()));
    assert_eq!(said(&action), [inbound_text(&answer)]);
    assert!(matches!(action.effects[0], Effect::Inbound(_)));
    assert_eq!(
        sent(&action),
        [
            json(r#"{"jsonrpc": "2.0", "method": "initialized", "params": {}}"#),
            json(r#"{"jsonrpc": "2.0", "id": 2, "method": "thread/read", "params": {"threadId": "t"}}"#),
        ]
    );
    assert!(matches!(action.next, Next::BeginResponse(30)));
    assert_eq!(p.stage(), Stage::Calling);
}

#[test]
fn threads_are_listed_where_no_method_is_given() {
    let mut p = initializing(&args());
    let action = p.advance(Event::Frame(json(r#"{"id": 1, "result": null}"#)));
    assert_eq!(
        sent(&action)[1],
        json(r#"{"jsonrpc": "2.0", "id": 2, "method": "thread/list", "params": {}}"#)
    );
}

#[test]
fn only_the_answer_to_initialize_ends_the_wait() {
    let mut p = initializing(&args());
    for other in [
        r#"{"id": 99, "method": "ask"}"#,
        r#"{"id": null}"#,
        r#"{"id": "1"}"#,
        r#"{"id": 2, "error": {}}"#,
    ] {
        let action = p.advance(Event::Frame(json(other)));
        assert_eq!(said(&action), [inbound_text(&json(other))]);
        assert!(sent(&action).is_empty());
        assert!(matches!(action.next, Next::ReadWithin(30)));
        assert_eq!(p.stage(), Stage::Initializing);
    }
    assert_eq!(sent(&p.advance(Event::Frame(json(r#"{"id": 1}"#)))).len(), 2);
}

#[test]
fn a_failed_initialize_is_not_followed_by_the_method() {
    for (frame, message) in [
        (r#"{"id": 1, "error": {"message": "too old"}}"#, "initialize failed: too old"),
        (r#"{"id": 1, "error": {"code": 5}}"#, "initialize failed: <no error>"),
    ] {
        let mut p = initializing(&args());
        let action = p.advance(Event::Frame(json(frame)));
        assert_eq!(said(&action), [inbound_text(&json(frame))]);
        assert!(sent(&action).is_empty());
        assert!(matches!(action.next, Next::Fail(text) if text == message));
        assert_eq!(p.stage(), Stage::Done);
    }
}

#[test]
fn a_null_error_is_no_failure() {
    let mut p = initializing(&args());
    let action = p.advance(Event::Frame(json(r#"{"id": 1, "result": {}, "error": null}"#)));
    assert_eq!(sent(&action).len(), 2);
    assert!(matches!(action.next, Next::BeginResponse(30)));
    assert_eq!(p.stage(), Stage::Calling);
}

#[test]
fn a_failed_handshake_fails_the_probe() {
    let mut p = initializing(&args());
    let action = p.advance(Event::ReadFailed("stream closed by peer".to_string()));
    assert!(action.effects.is_empty());
    assert!(matches!(action.next, Next::Fail(text) if text == "reading initialize response"));
    assert_eq!(p.stage(), Stage::Done);
}

#[test]
fn the_response_is_told_by_its_id() {
    let mut p = calling(&args());
    for other in [
        r#"{"id": 1}"#,
        r#"{"id": "2"}"#,
        r#"{"id": 2.0}"#,
        r#"{"id": [2]}"#,
        r#"{"method": "x"}"#,
    ] {
        let action = p.advance(Event::Frame(json(other)));
        assert_eq!(said(&action), [inbound_text(&json(other))]);
        assert!(matches!(action.next, Next::ReadOn));
        assert_eq!(p.stage(), Stage::Calling);
    }
    let response = json(r#"{"id": 2, "result": []}"#);
    let action = p.advance(Event::Frame(response.clone()));
    assert_eq!(
        said(&action),
        [
            inbound_text(&response),
            "probe: lingering 5s for trailing frames".to_string(),
        ]
    );
    assert!(sent(&action).is_empty());
    assert!(matches!(action.next, Next::BeginLinger(5)));
    assert_eq!(p.stage(), Stage::Lingering);
}

#[test]
fn a_probe_need_not_linger() {
    let mut a = args();
    a.linger_secs = 0;
    let mut p = calling(&a);
    let action = p.advance(Event::Frame(json(r#"{"id": 2}"#)));
    assert_eq!(action.effects.len(), 1);
    assert!(matches!(action.next, Next::Finish));
    assert_eq!(p.stage(), Stage::Done);
}

#[test]
fn a_missing_response_is_reported() {
    let mut a = args();
    a.timeout_secs = 7;
    let action = calling(&a).advance(Event::ReadFailed("timed out waiting for JSON line".to_string()));
    assert_eq!(
        said(&action),
        [
            "probe: read error: timed out waiting for JSON line",
            "probe: did not receive response to id=2 (thread/list) within 7s",
            "probe: lingering 5s for trailing frames",
        ]
    );
    assert!(matches!(action.next, Next::BeginLinger(5)));

    a.linger_secs = 0;
    let action = calling(&a).advance(Event::Expired);
    assert_eq!(
        said(&action),
        ["probe: did not receive response to id=2 (thread/list) within 7s"]
    );
    assert!(matches!(action.next, Next::Finish));
}

#[test]
fn trailing_frames_are_shown_until_the_time_is_over() {
    for end in [Event::Expired, Event::ReadFailed("empty JSON line".to_string())] {
        let mut p = calling(&args());
        p.advance(Event::Frame(json(r#"{"id": 2}"#)));
        let action = p.advance(Event::Frame(json(r#"{"id": 2}"#)));
        assert_eq!(said(&action), [inbound_text(&json(r#"{"id": 2}"#))]);
        assert!(matches!(action.next, Next::ReadOn));
        let action = p.advance(end);
        assert!(action.effects.is_empty());
        assert!(matches!(action.next, Next::Finish));
        assert_eq!(p.stage(), Stage::Done);
        let action = p.advance(Event::Frame(json("{}")));
        assert!(action.effects.is_empty());
        assert!(matches!(action.next, Next::Ignored));
        assert_eq!(p.stage(), Stage::Done);
    }
}

#[test]
fn events_at_the_wrong_time_are_ignored() {
    let mut p = probe(&args());
    for event in [Event::Frame(json(r#"{"id": 1}"#)), Event::Expired, Event::ReadFailed(String::new())] {
        let action = p.advance(event);
        assert!(action.effects.is_empty());
        assert!(matches!(action.next, Next::Ignored));
        assert_eq!(p.stage(), Stage::Connecting);
    }
    let mut p = initializing(&args());
    assert!(matches!(p.advance(Event::Expired).next, Next::Ignored));
    assert!(matches!(p.advance(Event::Ack { ok: false, error: None }).next, Next::Ignored));
    assert_eq!(p.stage(), Stage::Initializing);
}

#[test]
fn parameters_must_be_json() {
    let mut a = args();
    a.params = "{\"a\"".to_string();
    let error = match Probe::new(&a, "pi", "1") {
        Ok(_) => panic!(),
        Err(error) => error,
    };
    assert_eq!(error.message, "parsing --params \"{\\\"a\\\"\" as JSON");
    assert!(error.error.is_eof());
}

#[test]
fn frames_are_shown_indented() {
    let value = json(r#"{"id": 2, "ok": [true]}"#);
    let pretty = "{\n  \"id\": 2,\n  \"ok\": [\n    true\n  ]\n}";
    assert_eq!(outbound_text(&value), format!("→ {}", pretty));
    assert_eq!(inbound_text(&value), format!("← {}", pretty));
    assert_eq!(agents_text(&value).unwrap(), pretty);
}

#[test]
fn the_opening_request_depends_on_the_agent() {
    let mut a = args();
    match opening_request(&a, 3, "t") {
        Request::Connect { v, token, agent, resume } => {
            assert_eq!((v, token.as_str(), agent.as_str()), (3, "t", "pi"));
            assert_eq!(resume, None);
        }
        other => panic!("{:?}", other),
    }
    a.agent = None;
    match opening_request(&a, 3, "t") {
        Request::ListAgents { v, token } => assert_eq!((v, token.as_str()), (3, "t")),
        other => panic!("{:?}", other),
    }
}

#[test]
fn a_given_token_is_preferred() {
    let mut a = args();
    assert_eq!(choose_token(&a, "own"), "own");
    a.token = Some("given".to_string());
    assert_eq!(choose_token(&a, "own"), "given");
}

#[test]
fn a_given_node_is_preferred() {
    let own = vec![1u8, 2, 3];
    let mut a = args();
    assert_eq!(choose_node(&a, &own).unwrap(), own);
    let key = SecretKey::from_bytes(&[7u8; 32]).public();
    a.node_id = Some(key.to_string());
    assert_eq!(choose_node(&a, &own).unwrap(), key.as_bytes().to_vec());
    a.node_id = Some("not a \"key\"".to_string());
    let error = choose_node(&a, &own).unwrap_err();
    assert_eq!(
        error.message,
        "parsing --node-id \"not a \\\"key\\\"\" as iroh public key"
    );
}

#[test]
fn the_banner_does_not_show_the_token() {
    assert_eq!(
        dial_banner("abcd", "token", None),
        "probe: dialing node_id=abcd token=3c469e9d relay=<iroh default>"
    );
    assert_eq!(
        dial_banner("abcd", "token", Some("https://relay")),
        "probe: dialing node_id=abcd token=3c469e9d relay=https://relay"
    );
}
