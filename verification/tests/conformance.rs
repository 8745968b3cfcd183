use alleycat::diff::{compare, group_by_step, group_fingerprints, schema_only, Finding};
use alleycat::key_set::KeySet;
use alleycat::schema::{check, fingerprint};
use alleycat::transcript::{Frame, FrameKind, TargetId, TargetNames, Transcript};
use serde_json::Value;

fn json(text: &str) -> Value {
    serde_json::from_str(text).unwrap()
}

fn keys(set: &KeySet) -> Vec<String> {
    (0..set.len()).map(|i| set.get(i).clone()).collect()
}

fn set(list: &[&str]) -> KeySet {
    let mut set = KeySet::new();
    for key in list {
        set.insert(key.to_string());
    }
    set
}

/// A frame that meets every schema.
fn frame(step: &str, method: &str, kind: FrameKind, raw: Value) -> Frame {
    Frame::recorded(step, method, kind, &raw, None, None)
}

fn note(step: &str, method: &str) -> Frame {
    frame(step, method, FrameKind::Notification, json("{}"))
}

fn transcript(target: TargetId, frames: Vec<Frame>) -> Transcript {
    let mut t = Transcript::new(target);
    for f in frames {
        t.push(f);
    }
    t
}

#[test]
fn identical_transcripts_have_no_findings() {
    let mut a = Transcript::new(TargetId::Codex);
    let mut b = Transcript::new(TargetId::Pi);
    let resp = json(
        r#"{
            "jsonrpc": "2.0",
            "id": 1,
            "result": {
                "userAgent": "x", "codexHome": "/tmp",
                "platformFamily": "unix", "platformOs": "linux"
            }
        }"#,
    );
    a.push(frame("initialize", "initialize", FrameKind::Response, resp.clone()));
    b.push(frame("initialize", "initialize", FrameKind::Response, resp));
    let report = compare(&a, &b);
    assert!(report.is_clean(), "{}", report.to_text("pi"));
    assert_eq!(report.target, TargetId::Pi);
    assert_eq!(report.to_text("pi"), "[conformance:pi] 0 finding(s)\n");
}

#[test]
fn missing_field_is_flagged() {
    let mut a = Transcript::new(TargetId::Codex);
    let mut b = Transcript::new(TargetId::Pi);
    a.push(frame(
        "step",
        "initialize",
        FrameKind::Response,
        json(
            r#"{
                "jsonrpc": "2.0", "id": 1,
                "result": {"userAgent": "x", "codexHome": "/h", "platformFamily": "u", "platformOs": "l"}
            }"#,
        ),
    ));
    b.push(Frame::recorded(
        "step",
        "initialize",
        FrameKind::Response,
        &json(
            r#"{
                "jsonrpc": "2.0", "id": 1,
                "result": {"userAgent": "x", "platformFamily": "u", "platformOs": "l"}
            }"#,
        ),
        Some("missing field `codexHome`".to_string()),
        None,
    ));
    let report = compare(&a, &b);
    assert!(!report.is_clean());
    let has_key_diff = report.findings.iter().any(|f| {
        matches!(
            f, Finding::KeyDifference { missing, .. } if missing.contains("codexHome")
        )
    });
    assert!(has_key_diff, "{}", report.to_text("pi"));
    assert_eq!(
        report.to_text("pi"),
        "[conformance:pi] 2 finding(s)\n\
         \x20 #0: schema error in Response initialize (step=step): missing field `codexHome`\n\
         \x20 #1: key fingerprint diff for Response initialize (step=step):\n\
         \x20     missing on target: {\"codexHome\"}\n"
    );
}

#[test]
fn opencode_known_divergence_is_quiet() {
    let mut a = Transcript::new(TargetId::Codex);
    let b = Transcript::new(TargetId::Opencode);
    a.push(frame(
        "turn/start",
        "thread/started",
        FrameKind::Notification,
        json(
            r#"{
                "jsonrpc": "2.0", "method": "thread/started",
                "params": {"thread": {}}
            }"#,
        ),
    ));
    let report = compare(&a, &b);
    assert!(!report
        .findings
        .iter()
        .any(|f| matches!(f, Finding::MissingNotification { method, .. } if method == "thread/started")));
    assert!(report.is_clean());
}

#[test]
fn missing_and_extra_notifications_mirror() {
    let a = transcript(TargetId::Codex, vec![note("s", "b/x"), note("s", "a/x"), note("s", "both")]);
    let b = transcript(TargetId::Amp, vec![note("s", "both"), note("s", "c/x")]);
    assert_eq!(
        compare(&a, &b).to_text("amp"),
        "[conformance:amp] 3 finding(s)\n\
         \x20 #0: missing notification a/x in step s\n\
         \x20 #1: missing notification b/x in step s\n\
         \x20 #2: unexpected extra notification c/x in step s\n"
    );
    let b = Transcript { target: TargetId::Codex, frames: b.frames };
    let a = Transcript { target: TargetId::Amp, frames: a.frames };
    assert_eq!(
        compare(&b, &a).to_text("amp"),
        "[conformance:amp] 3 finding(s)\n\
         \x20 #0: missing notification c/x in step s\n\
         \x20 #1: unexpected extra notification a/x in step s\n\
         \x20 #2: unexpected extra notification b/x in step s\n"
    );
}

#[test]
fn listed_notifications_may_differ_in_both_directions() {
    let with = |target| transcript(target, vec![note("s", "warning")]);
    let without = |target| transcript(target, vec![note("s", "other")]);
    let missing = compare(&with(TargetId::Codex), &without(TargetId::Amp));
    assert_eq!(missing.findings.len(), 1);
    assert!(matches!(&missing.findings[0], Finding::ExtraNotification { method, .. } if method == "other"));
    let extra = compare(&without(TargetId::Codex), &with(TargetId::Amp));
    assert_eq!(extra.findings.len(), 1);
    assert!(matches!(&extra.findings[0], Finding::MissingNotification { method, .. } if method == "other"));
    assert_eq!(compare(&without(TargetId::Pi), &with(TargetId::Codex)).findings.len(), 2);
}

#[test]
fn schema_errors_are_reported_whatever_is_allowed() {
    let mut bad = frame("s", "config/read", FrameKind::Response, json(r#"{"result": null}"#));
    bad.check.deserialize_error = Some("invalid type: null".to_string());
    bad.check.upstream_error = Some("null is not an object".to_string());
    let t = transcript(TargetId::Pi, vec![bad]);
    let report = compare(&Transcript::new(TargetId::Codex), &t);
    assert_eq!(
        report.to_text("pi"),
        "[conformance:pi] 2 finding(s)\n\
         \x20 #0: schema error in Response config/read (step=s): invalid type: null\n\
         \x20 #1: upstream-schema violation in Response config/read (step=s): null is not an object\n"
    );
}

#[test]
fn error_responses_are_exempt_from_the_upstream_schema() {
    let mut failed = frame(
        "s",
        "thread/start",
        FrameKind::Response,
        json(r#"{"error": {"code": -32601, "message": "Method not found"}}"#),
    );
    failed.check.upstream_error = Some("null is not an object".to_string());
    let t = transcript(TargetId::Pi, vec![failed]);
    let reference = transcript(
        TargetId::Codex,
        vec![frame("s", "thread/start", FrameKind::Response, json(r#"{"result": {}}"#))],
    );
    let report = compare(&reference, &t);
    assert_eq!(
        report.to_text("pi"),
        "[conformance:pi] 1 finding(s)\n\
         \x20 #0: unexpected error response for thread/start (step=s, code=-32601): Method not found\n"
    );
    assert_eq!(schema_only(&t).len(), 1);
}

#[test]
fn errors_count_where_the_reference_succeeds() {
    let failed = |target| {
        transcript(
            target,
            vec![frame(
                "s",
                "thread/start",
                FrameKind::Response,
                json(r#"{"error": {"code": 1, "message": "no"}}"#),
            )],
        )
    };
    assert!(compare(&Transcript::new(TargetId::Codex), &failed(TargetId::Pi)).is_clean());
    assert!(compare(&failed(TargetId::Codex), &failed(TargetId::Pi)).is_clean());
    let reference = transcript(
        TargetId::Codex,
        vec![
            frame("elsewhere", "thread/start", FrameKind::Response, json(r#"{"result": {}}"#)),
        ],
    );
    let report = compare(&reference, &failed(TargetId::Pi));
    assert!(matches!(report.findings[0], Finding::UnexpectedError { code: 1, .. }));
    assert_eq!(schema_only(&failed(TargetId::Pi)).len(), 1);
}

#[test]
fn listed_methods_may_fail() {
    let failed = || {
        frame(
            "s",
            "review/start",
            FrameKind::Response,
            json(r#"{"error": {"code": 1, "message": "no"}}"#),
        )
    };
    assert!(schema_only(&transcript(TargetId::Pi, vec![failed()])).is_empty());
    let findings = schema_only(&transcript(TargetId::Claude, vec![failed()]));
    assert!(matches!(
        &findings[..],
        [Finding::UnexpectedError { step, method, code: 1, message }]
            if step == "s" && method == "review/start" && message == "no"
    ));
}

#[test]
fn errors_without_a_code_or_a_message_are_not_reported() {
    let t = transcript(
        TargetId::Amp,
        vec![
            frame("s", "m", FrameKind::Response, json(r#"{"error": {"code": 1}}"#)),
            frame("s", "m", FrameKind::Response, json(r#"{"error": {"message": "no"}}"#)),
            frame("s", "m", FrameKind::Notification, json(r#"{"error": {"code": 1, "message": "no"}}"#)),
        ],
    );
    assert!(schema_only(&t).is_empty());
}

#[test]
fn checks_come_before_comparisons() {
    let mut late = note("z", "same");
    late.check.deserialize_error = Some("bad".to_string());
    let a = transcript(TargetId::Codex, vec![note("a", "gone"), note("z", "same")]);
    let b = transcript(TargetId::Amp, vec![late]);
    let report = compare(&a, &b);
    assert!(matches!(report.findings[0], Finding::SchemaError { .. }));
    assert!(matches!(report.findings[1], Finding::MissingNotification { .. }));
    assert_eq!(report.findings.len(), 2);
}

#[test]
fn key_differences_name_both_sides() {
    let a = transcript(
        TargetId::Codex,
        vec![frame(
            "s",
            "thread/list",
            FrameKind::Response,
            json(r#"{"result": {"data": [{"id": 1, "name": "n"}, {"cwd": "/"}], "nextCursor": "c", "odd\"key": 1}}"#),
        )],
    );
    let b = transcript(
        TargetId::Droid,
        vec![frame(
            "s",
            "thread/list",
            FrameKind::Response,
            json(r#"{"result": {"data": [{"id": 1, "late": true}], "more": {"x": 2}}}"#),
        )],
    );
    assert_eq!(
        compare(&a, &b).to_text("droid"),
        "[conformance:droid] 1 finding(s)\n\
         \x20 #0: key fingerprint diff for Response thread/list (step=s):\n\
         \x20     missing on target: {\"data[].cwd\", \"odd\\\"key\"}\n\
         \x20     extra on target:   {\"data[].late\", \"more\", \"more.x\"}\n"
    );
}

#[test]
fn allowed_paths_belong_to_their_method() {
    let one = |target, method: &str, payload: &str| {
        transcript(target, vec![frame("s", method, FrameKind::Response, json(payload))])
    };
    let full = r#"{"result": {"id": 1, "account": {"email": "e"}}}"#;
    let bare = r#"{"result": {"id": 1, "account": {}}}"#;
    assert!(compare(&one(TargetId::Codex, "account/read", full), &one(TargetId::Acp, "account/read", bare))
        .is_clean());
    assert!(!compare(&one(TargetId::Codex, "account/other", full), &one(TargetId::Acp, "account/other", bare))
        .is_clean());
    assert!(!compare(&one(TargetId::Acp, "account/read", full), &one(TargetId::Codex, "account/read", bare))
        .is_clean());
}

#[test]
fn keys_of_all_frames_of_a_method_count_together() {
    let a = transcript(
        TargetId::Codex,
        vec![
            frame("s", "item", FrameKind::Notification, json(r#"{"params": {"a": 1}}"#)),
            frame("s", "item", FrameKind::Notification, json(r#"{"params": {"b": 1}}"#)),
        ],
    );
    let b = transcript(
        TargetId::Amp,
        vec![frame("s", "item", FrameKind::Notification, json(r#"{"params": {"b": 2, "a": 3}}"#))],
    );
    assert!(compare(&a, &b).is_clean());
}

#[test]
fn keys_are_compared_where_both_sides_sent_frames() {
    let full = r#"{"result": {"a": 1}, "params": {"a": 1}}"#;
    let one = |target, kind, raw: &str| transcript(target, vec![frame("s", "m", kind, json(raw))]);
    for kind in [FrameKind::Response, FrameKind::Notification] {
        let with = one(TargetId::Codex, kind, full);
        let report = compare(&with, &Transcript::new(TargetId::Claude));
        assert!(!report.is_clean());
        assert!(!report.findings.iter().any(|f| matches!(f, Finding::KeyDifference { .. })));
        let with = Transcript { target: TargetId::Claude, frames: with.frames };
        let report = compare(&Transcript::new(TargetId::Codex), &with);
        assert!(!report.findings.iter().any(|f| matches!(f, Finding::KeyDifference { .. })));

        let report = compare(
            &one(TargetId::Codex, kind, full),
            &one(TargetId::Claude, kind, r#"{"result": {}, "params": {}}"#),
        );
        assert!(matches!(
            &report.findings[..],
            [Finding::KeyDifference { missing, extra, .. }]
                if keys(missing) == ["a"] && extra.is_empty()
        ));
    }
}

#[test]
fn methods_that_succeed_on_the_reference_must_be_answered() {
    let a = transcript(
        TargetId::Codex,
        vec![
            frame("s", "thread/archive", FrameKind::Response, json(r#"{"jsonrpc":"2.0","id":1,"result":{}}"#)),
            frame("s", "review/start", FrameKind::Response, json(r#"{"result":{}}"#)),
            frame("s", "account/read", FrameKind::Response, json(r#"{"error":{"code":1,"message":"no"}}"#)),
            frame("s", "a/b", FrameKind::Response, json(r#"{"result":{"x":1}}"#)),
        ],
    );
    let report = compare(&a, &Transcript::new(TargetId::Pi));
    assert_eq!(
        report.to_text("pi"),
        "[conformance:pi] 2 finding(s)\n\
         \x20 #0: missing response to a/b in step s\n\
         \x20 #1: missing response to thread/archive in step s\n"
    );
    let elsewhere = transcript(
        TargetId::Pi,
        vec![
            frame("t", "thread/archive", FrameKind::Response, json(r#"{"result":{}}"#)),
            frame("s", "a/b", FrameKind::Response, json(r#"{"result":{"x":2}}"#)),
        ],
    );
    assert!(matches!(
        &compare(&a, &elsewhere).findings[..],
        [Finding::MissingResponse { step, method }] if step == "s" && method == "thread/archive"
    ));
}

#[test]
fn responses_come_before_notifications_of_a_method() {
    let a = transcript(
        TargetId::Codex,
        vec![
            frame("s", "m", FrameKind::Notification, json(r#"{"params": {"n": 1}}"#)),
            frame("s", "m", FrameKind::Response, json(r#"{"result": {"r": 1}}"#)),
        ],
    );
    let b = transcript(
        TargetId::Amp,
        vec![note("s", "m"), frame("s", "m", FrameKind::Response, json("{}"))],
    );
    assert_eq!(
        compare(&a, &b).to_text("amp"),
        "[conformance:amp] 2 finding(s)\n\
         \x20 #0: key fingerprint diff for Response m (step=s):\n\
         \x20     missing on target: {\"r\"}\n\
         \x20 #1: key fingerprint diff for Notification m (step=s):\n\
         \x20     missing on target: {\"n\"}\n"
    );
}

#[test]
fn steps_are_compared_in_the_order_of_their_names() {
    let a = transcript(TargetId::Codex, vec![note("é", "m"), note("z", "m"), note("b", "m"), note("B", "m")]);
    let report = compare(&a, &Transcript::new(TargetId::Amp));
    let order: Vec<&str> = report
        .findings
        .iter()
        .map(|f| match f {
            Finding::MissingNotification { step, .. } => step.as_str(),
            _ => panic!(),
        })
        .collect();
    assert_eq!(order, ["B", "b", "z", "é"]);
}

#[test]
fn all_frames_of_a_step_count() {
    let t = transcript(
        TargetId::Codex,
        vec![note("a", "1"), note("b", "2"), note("a", "3"), note("a", "4"), note("", "5")],
    );
    let groups = group_by_step(&t);
    assert_eq!(keys(&groups.keys()), ["a", "b"]);
    assert_eq!(groups.get("a"), Some(&vec![0, 2, 3]));
    assert_eq!(groups.get("b"), Some(&vec![1]));
    assert_eq!(groups.get(""), None);
    assert_eq!(groups.get("c"), None);

    let report = compare(&t, &Transcript::new(TargetId::Amp));
    let methods: Vec<&str> = report
        .findings
        .iter()
        .map(|f| match f {
            Finding::MissingNotification { method, .. } => method.as_str(),
            _ => panic!(),
        })
        .collect();
    assert_eq!(methods, ["1", "3", "4", "2"]);
}

#[test]
fn a_step_may_be_returned_to() {
    let a = transcript(
        TargetId::Codex,
        vec![note("a", "turn/started"), note("b", "turn/completed"), note("a", "turn/completed")],
    );
    let b = transcript(TargetId::Codex, vec![note("b", "turn/completed"), note("a", "turn/completed")]);
    assert!(matches!(
        &compare(&a, &b).findings[..],
        [Finding::MissingNotification { step, method }] if step == "a" && method == "turn/started"
    ));
}

#[test]
fn frames_without_a_step_are_not_compared() {
    let t = transcript(TargetId::Codex, vec![note("", "m")]);
    assert!(compare(&t, &Transcript::new(TargetId::Amp)).is_clean());
    assert!(group_by_step(&t).keys().is_empty());
}

#[test]
fn fingerprints_are_grouped_by_method_and_kind() {
    let frames = vec![
        frame("s", "m", FrameKind::Response, json(r#"{"result": {"a": 1}}"#)),
        frame("s", "m", FrameKind::Response, json(r#"{"result": {"b": 1}}"#)),
        frame("s", "m", FrameKind::Notification, json(r#"{"params": {"c": 1}}"#)),
        note("s", "bare"),
    ];
    let frames: Vec<&Frame> = frames.iter().collect();
    let groups = group_fingerprints(&frames);
    assert_eq!(keys(&groups.responses.keys()), ["m"]);
    assert_eq!(keys(groups.responses.get("m").unwrap()), ["a", "b"]);
    assert_eq!(keys(&groups.notifications.keys()), ["m"]);
    assert_eq!(keys(groups.notifications.get("m").unwrap()), ["c"]);
}

#[test]
fn fingerprints_list_the_paths_that_hold_something() {
    let payload = json(
        r#"{
            "thread": {"id": "t", "name": null, "turns": [{"items": [{"text": ""}, null]}, {"ms": 0}]},
            "empty": {}, "none": [], "nulls": [null], "flag": false
        }"#,
    );
    assert_eq!(
        keys(&fingerprint(&payload)),
        [
            "empty",
            "flag",
            "none",
            "nulls",
            "thread",
            "thread.id",
            "thread.turns",
            "thread.turns[]",
            "thread.turns[].items",
            "thread.turns[].items[]",
            "thread.turns[].items[].text",
            "thread.turns[].ms",
        ]
    );
    assert!(fingerprint(&json("null")).is_empty());
    assert!(fingerprint(&json("3")).is_empty());
    assert_eq!(keys(&fingerprint(&json("[1]"))), ["[]"]);
}

#[test]
fn null_members_count_as_absent() {
    let with = fingerprint(&json(r#"{"a": 1, "b": null}"#));
    let without = fingerprint(&json(r#"{"a": 1}"#));
    assert_eq!(keys(&with), keys(&without));
}

#[test]
fn key_sets_are_sorted_and_hold_each_key_once() {
    let mut a = set(&["b", "a", "b", "ab"]);
    assert_eq!(keys(&a), ["a", "ab", "b"]);
    assert!(a.contains("ab") && !a.contains("c"));
    let b = set(&["b", "c"]);
    assert_eq!(keys(&a.minus(&b)), ["a", "ab"]);
    assert_eq!(keys(&a.without("a")), ["ab", "b"]);
    let copy = a.clone();
    a.extend(&b);
    assert_eq!(keys(&a), ["a", "ab", "b", "c"]);
    assert_eq!(keys(&copy), ["a", "ab", "b"]);
    assert!(!a.is_empty() && KeySet::new().is_empty());
}

#[test]
fn frames_are_checked_by_themselves() {
    let raw = json(r#"{"id": 1, "result": {"a": 1}, "params": {"b": 1}}"#);
    let response = check(FrameKind::Response, &raw, None, Some("up".to_string()));
    assert_eq!(keys(&response.fingerprint), ["a"]);
    assert!(!response.error_response);
    assert_eq!(response.error_code, None);
    assert_eq!(response.error_message, None);
    assert_eq!(response.deserialize_error, None);
    assert_eq!(response.upstream_error, Some("up".to_string()));
    let note = check(FrameKind::Notification, &raw, Some("typed".to_string()), None);
    assert_eq!(keys(&note.fingerprint), ["b"]);
    assert_eq!(note.deserialize_error, Some("typed".to_string()));
    assert_eq!(note.upstream_error, None);

    let failed = |text: &str| check(FrameKind::Response, &json(text), None, None);
    let full = failed(r#"{"error": {"code": -32601, "message": "Method not found"}}"#);
    assert!(full.error_response && full.fingerprint.is_empty());
    assert_eq!(full.error_code, Some(-32601));
    assert_eq!(full.error_message, Some("Method not found".to_string()));
    for odd in [
        r#"{"error": "no"}"#,
        r#"{"error": {"code": 1.5, "message": 2}}"#,
        r#"{"error": {"code": "1", "message": null}}"#,
        r#"{"error": {"code": 9223372036854775808}}"#,
    ] {
        let check = failed(odd);
        assert!(check.error_response);
        assert_eq!(check.error_code, None);
        assert_eq!(check.error_message, None);
    }
}

#[test]
fn fewer_exceptions_find_more() {
    let a = transcript(TargetId::Codex, vec![note("s", "warning"), note("s", "other")]);
    let found = |target| compare(&a, &transcript(target, Vec::new())).findings.len();
    assert_eq!(found(TargetId::Pi), 1);
    assert_eq!(found(TargetId::Codex), 2);
}

#[test]
fn a_null_error_is_none() {
    let answered = check(FrameKind::Response, &json(r#"{"result": {"a": 1}, "error": null}"#), None, None);
    assert!(!answered.error_response);
    assert_eq!(answered.error_code, None);
    assert_eq!(keys(&answered.fingerprint), ["a"]);
}

#[test]
fn an_error_without_a_code_is_no_answer() {
    let a = transcript(
        TargetId::Codex,
        vec![frame("s", "m", FrameKind::Response, json(r#"{"result": {}}"#))],
    );
    for (error, missing) in [
        (r#"{"error": {"message": "no"}}"#, true),
        (r#"{"error": {"code": 1}}"#, true),
        (r#"{"error": {"code": 1, "message": "no"}}"#, false),
    ] {
        let b = transcript(
            TargetId::Claude,
            vec![frame("s", "m", FrameKind::Response, json(error))],
        );
        let report = compare(&a, &b);
        assert_eq!(report.findings.len(), 1);
        assert_eq!(matches!(report.findings[0], Finding::MissingResponse { .. }), missing);
        assert_eq!(matches!(report.findings[0], Finding::UnexpectedError { .. }), !missing);
    }
}

#[test]
fn reports_name_their_target() {
    let names = TargetNames {
        names: vec![
            (TargetId::Codex, "codex".to_string()),
            (TargetId::Pi, "pi".to_string()),
            (TargetId::Pi, "other".to_string()),
        ],
    };
    for (target, name) in [(TargetId::Codex, "codex"), (TargetId::Pi, "pi"), (TargetId::Acp, "")] {
        assert_eq!(names.name(target), name);
        let report = compare(&Transcript::new(TargetId::Codex), &Transcript::new(target));
        assert_eq!(report.own_text(&names), format!("[conformance:{}] 0 finding(s)\n", name));
        assert_eq!(report.own_text(&names), report.to_text(name));
    }
}
