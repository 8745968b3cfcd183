//! What a frame says by itself, and which keys its payload populates.
use serde_json::Value;
use vstd::prelude::*;

use crate::json;
use crate::json::Json;
use crate::key_set::KeySet;
use crate::text;
use crate::transcript::{Frame, FrameCheck, FrameKind};

verus! {

/// The path of the member `key` of the object at `at`.
pub open spec fn member_path(at: Seq<char>, key: Seq<char>) -> Seq<char> {
    if at.len() == 0 {
        key
    } else {
        at + "."@ + key
    }
}

/// The path of the elements of the array at `at`.
pub open spec fn element_path(at: Seq<char>) -> Seq<char> {
    at + "[]"@
}

/// The paths of everything below a value at `at` that is not null: members by their keys with dots
/// between them, all elements of an array under one path.
pub open spec fn paths(value: Json, at: Seq<char>) -> Set<Seq<char>>
    decreases value,
{
    match value {
        Json::Object(members) => Set::new(
            |p: Seq<char>|
                exists|key: Seq<char>| #[trigger]
                    members.contains_key(key) && !(members[key] is Null) && (p == member_path(
                        at,
                        key,
                    ) || paths(members[key], member_path(at, key)).contains(p)),
        ),
        Json::Array(items) => Set::new(
            |p: Seq<char>|
                exists|i: int|
                    0 <= i < items.len() && !(#[trigger] items[i] is Null) && (p == element_path(at)
                        || paths(items[i], element_path(at)).contains(p)),
        ),
        _ => Set::empty(),
    }
}

fn walk(value: &Value, at: &String, out: &mut KeySet)
    ensures
        final(out)@ == old(out)@.union(paths(json::json_of(*value), at@)),
    decreases json::json_of(*value),
{
    let ghost start = out@;
    let ghost whole = json::json_of(*value);
    if let Some(members) = json::as_object(value) {
        let ghost all = json::members_of(*members);
        let names = json::keys(members);
        let ghost keys = text::views(names@);
        let ghost upto = |n: int|
            Set::new(
                |p: Seq<char>|
                    exists|j: int|
                        0 <= j < n && !(all[#[trigger] keys[j]] is Null) && (p == member_path(
                            at@,
                            keys[j],
                        ) || paths(all[keys[j]], member_path(at@, keys[j])).contains(p)),
            );
        let mut i: usize = 0;
        assert(start =~= start.union(upto(0)));
        while i < names.len()
            invariant
                whole == json::json_of(*value),
                whole == Json::Object(all),
                keys == text::views(names@),
                keys.to_set() == all.dom(),
                upto == (|n: int|
                    Set::new(
                        |p: Seq<char>|
                            exists|j: int|
                                0 <= j < n && !(all[#[trigger] keys[j]] is Null) && (p
                                    == member_path(at@, keys[j]) || paths(
                                    all[keys[j]],
                                    member_path(at@, keys[j]),
                                ).contains(p)),
                    )),
                i <= keys.len(),
                out@ == start.union(upto(i as int)),
            decreases keys.len() - i,
        {
            let ghost key = keys[i as int];
            proof {
                assert(keys.contains(key));
                assert(keys.to_set().contains(key));
                assert(all.contains_key(key));
            }
            let ghost before = out@;
            if let Some(inner) = json::member(value, names[i].as_str()) {
                if !json::is_null(inner) {
                    let path = if at.as_str().is_empty() {
                        names[i].clone()
                    } else {
                        let mut path = at.clone();
                        path.append(".");
                        path.append(names[i].as_str());
                        path
                    };
                    assert(path@ == member_path(at@, key));
                    out.insert(path.clone());
                    walk(inner, &path, out);
                    assert(out@ =~= before.insert(path@).union(paths(all[key], path@)));
                }
            }
            proof {
                let (now, next) = (upto(i as int), upto(i + 1));
                assert forall|p: Seq<char>| out@.contains(p) <==> start.union(next).contains(p) by {
                    if now.contains(p) {
                        let j = choose|j: int|
                            0 <= j < i && !(all[#[trigger] keys[j]] is Null) && (p == member_path(
                                at@,
                                keys[j],
                            ) || paths(all[keys[j]], member_path(at@, keys[j])).contains(p));
                        assert(0 <= j < i + 1 && !(all[keys[j]] is Null));
                        assert(next.contains(p));
                    }
                    if next.contains(p) {
                        let j = choose|j: int|
                            0 <= j < i + 1 && !(all[#[trigger] keys[j]] is Null) && (p
                                == member_path(at@, keys[j]) || paths(
                                all[keys[j]],
                                member_path(at@, keys[j]),
                            ).contains(p));
                        if j < i {
                            assert(now.contains(p));
                        }
                    }
                }
                assert(out@ =~= start.union(next));
            }
            i = i + 1;
        }
        proof {
            let found = paths(whole, at@);
            let named = upto(i as int);
            assert forall|p: Seq<char>| found.contains(p) <==> named.contains(p) by {
                if found.contains(p) {
                    let key = choose|key: Seq<char>| #[trigger]
                        all.contains_key(key) && !(all[key] is Null) && (p == member_path(at@, key)
                            || paths(all[key], member_path(at@, key)).contains(p));
                    assert(keys.to_set().contains(key));
                    let j = keys.index_of(key);
                    assert(keys[j] == key);
                }
                if named.contains(p) {
                    let j = choose|j: int|
                        0 <= j < i && !(all[#[trigger] keys[j]] is Null) && (p == member_path(
                            at@,
                            keys[j],
                        ) || paths(all[keys[j]], member_path(at@, keys[j])).contains(p));
                    assert(keys.to_set().contains(keys[j]));
                    assert(all.contains_key(keys[j]));
                }
            }
            assert(out@ =~= start.union(found));
        }
    } else if let Some(items) = json::as_array(value) {
        let ghost all = json::jsons(items@);
        let ghost path_view = element_path(at@);
        let mut path = at.clone();
        path.append("[]");
        let ghost upto = |n: int|
            Set::new(
                |p: Seq<char>|
                    exists|j: int|
                        0 <= j < n && !(#[trigger] all[j] is Null) && (p == path_view || paths(
                            all[j],
                            path_view,
                        ).contains(p)),
            );
        let mut i: usize = 0;
        assert(start =~= start.union(upto(0)));
        while i < items.len()
            invariant
                whole == json::json_of(*value),
                whole == Json::Array(all),
                all == json::jsons(items@),
                path@ == path_view,
                upto == (|n: int|
                    Set::new(
                        |p: Seq<char>|
                            exists|j: int|
                                0 <= j < n && !(#[trigger] all[j] is Null) && (p == path_view
                                    || paths(all[j], path_view).contains(p)),
                    )),
                i <= all.len(),
                out@ == start.union(upto(i as int)),
            decreases all.len() - i,
        {
            let ghost before = out@;
            assert(all[i as int] == json::json_of(items@[i as int]));
            assert(decreases_to!(whole => whole->Array_0[i as int]));
            if !json::is_null(&items[i]) {
                out.insert(path.clone());
                walk(&items[i], &path, out);
                assert(out@ =~= before.insert(path@).union(paths(all[i as int], path@)));
            }
            proof {
                let (now, next) = (upto(i as int), upto(i + 1));
                assert forall|p: Seq<char>| out@.contains(p) <==> start.union(next).contains(p) by {
                    if now.contains(p) {
                        let j = choose|j: int|
                            0 <= j < i && !(#[trigger] all[j] is Null) && (p == path_view || paths(
                                all[j],
                                path_view,
                            ).contains(p));
                        assert(0 <= j < i + 1 && !(all[j] is Null));
                        assert(next.contains(p));
                    }
                    if next.contains(p) {
                        let j = choose|j: int|
                            0 <= j < i + 1 && !(#[trigger] all[j] is Null) && (p == path_view
                                || paths(all[j], path_view).contains(p));
                        if j < i {
                            assert(now.contains(p));
                        }
                    }
                }
                assert(out@ =~= start.union(next));
            }
            i = i + 1;
        }
        proof {
            assert(upto(i as int) =~= paths(whole, at@));
        }
    } else {
        assert(out@ =~= start.union(paths(whole, at@)));
    }
}

/// The paths of all keys that `payload` populates. Null counts as absent.
pub fn fingerprint(payload: &Value) -> (r: KeySet)
    ensures
        r@ == paths(json::json_of(*payload), seq![]),
{
    let mut r = KeySet::new();
    let at = String::new();
    walk(payload, &at, &mut r);
    assert(r@ =~= paths(json::json_of(*payload), seq![]));
    r
}

/// The part of a frame that is compared: the result of a response, the parameters of a
/// notification.
pub open spec fn payload(kind: FrameKind, raw: Json) -> Option<Json> {
    match kind {
        FrameKind::Response => raw.member("result"@),
        FrameKind::Notification => raw.member("params"@),
    }
}

/// Whether a frame carries an error. One that is null is none.
pub open spec fn is_error(raw: Json) -> bool {
    match raw.member("error"@) {
        Some(error) => !(error is Null),
        None => false,
    }
}

/// The member `key` of the error that a frame carries.
pub open spec fn error_member(raw: Json, key: Seq<char>) -> Option<Json> {
    match raw.member("error"@) {
        Some(error) => error.member(key),
        None => None,
    }
}

/// Whether a check says of a frame what the frame says by itself.
pub open spec fn checks(r: FrameCheck, kind: FrameKind, raw: Json) -> bool {
    &&& r.error_response == is_error(raw)
    &&& match r.error_code {
        Some(code) => error_member(raw, "code"@) == Some(
            Json::Number(text::integer(code as int)),
        ),
        None => forall|code: i64|
            error_member(raw, "code"@) != Some(Json::Number(#[trigger] text::integer(code as int))),
    }
    &&& match error_member(raw, "message"@) {
        Some(Json::Text(message)) => r.error_message is Some && r.error_message->0@ == message,
        _ => r.error_message is None,
    }
    &&& r.fingerprint@ == match payload(kind, raw) {
        Some(payload) => paths(payload, seq![]),
        None => Set::empty(),
    }
}

/// What a frame says by itself: whether it is an error response, the code and the message of its
/// error, and the keys that its payload populates. What the schemas object to is taken as given.
pub fn check(
    kind: FrameKind,
    raw: &Value,
    deserialize_error: Option<String>,
    upstream_error: Option<String>,
) -> (r: FrameCheck)
    ensures
        r.deserialize_error == deserialize_error,
        r.upstream_error == upstream_error,
        checks(r, kind, json::json_of(*raw)),
{
    let error = json::member(raw, "error");
    let error_response = match error {
        Some(error) => !json::is_null(error),
        None => false,
    };
    let mut error_code: Option<i64> = None;
    let mut error_message: Option<String> = None;
    if let Some(error) = error {
        if let Some(code) = json::member(error, "code") {
            error_code = json::as_integer(code);
        }
        if let Some(message) = json::member(error, "message") {
            if let Some(message) = json::as_text(message) {
                error_message = Some(message.to_string());
            }
        }
    }
    let payload = match kind {
        FrameKind::Response => json::member(raw, "result"),
        FrameKind::Notification => json::member(raw, "params"),
    };
    let fingerprint = match payload {
        Some(payload) => fingerprint(payload),
        None => KeySet::new(),
    };
    FrameCheck {
        deserialize_error,
        upstream_error,
        error_response,
        error_code,
        error_message,
        fingerprint,
    }
}

impl Frame {
    /// The frame `raw`, checked, as it was seen in `step`.
    pub fn recorded(
        step: &str,
        method: &str,
        kind: FrameKind,
        raw: &Value,
        deserialize_error: Option<String>,
        upstream_error: Option<String>,
    ) -> (r: Frame)
        ensures
            r.step@ == step@,
            r.method@ == method@,
            r.kind == kind,
            checks(r.check, kind, json::json_of(*raw)),
            r.check.deserialize_error == deserialize_error,
            r.check.upstream_error == upstream_error,
    {
        Frame {
            step: step.to_string(),
            method: method.to_string(),
            kind,
            check: check(kind, raw, deserialize_error, upstream_error),
        }
    }
}

/// A member that is null counts as one that is absent.
pub proof fn law_null_counts_as_absent(
    members: Map<Seq<char>, Json>,
    key: Seq<char>,
    at: Seq<char>,
)
    requires
        !members.contains_key(key),
    ensures
        paths(Json::Object(members.insert(key, Json::Null)), at) == paths(
            Json::Object(members),
            at,
        ),
{
    let more = members.insert(key, Json::Null);
    let (a, b) = (paths(Json::Object(more), at), paths(Json::Object(members), at));
    assert forall|p: Seq<char>| a.contains(p) <==> b.contains(p) by {
        if a.contains(p) {
            let k = choose|k: Seq<char>| #[trigger]
                more.contains_key(k) && !(more[k] is Null) && (p == member_path(at, k) || paths(
                    more[k],
                    member_path(at, k),
                ).contains(p));
            assert(members.contains_key(k) && members[k] == more[k]);
        }
        if b.contains(p) {
            let k = choose|k: Seq<char>| #[trigger]
                members.contains_key(k) && !(members[k] is Null) && (p == member_path(at, k)
                    || paths(members[k], member_path(at, k)).contains(p));
            assert(more.contains_key(k) && members[k] == more[k]);
        }
    }
    assert(a =~= b);
}

} // verus!
