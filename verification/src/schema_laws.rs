//! What the fingerprint of a payload holds, and what a check says of a frame.
use vstd::prelude::*;

use crate::json::Json;
use crate::schema;
use crate::text;
use crate::text_laws;
use crate::transcript::{FrameCheck, FrameKind};

verus! {

/// Texts, numbers, booleans and null have no keys below them.
pub proof fn law_plain_values_have_no_keys(value: Json, at: Seq<char>)
    requires
        !(value is Object),
        !(value is Array),
    ensures
        schema::paths(value, at) == Set::<Seq<char>>::empty(),
{
}

/// A further member of an object that is not null adds its own path, which is its name, after a
/// dot where the object itself has a path, and all paths below it; and nothing else.
pub proof fn law_member_adds_its_paths(
    members: Map<Seq<char>, Json>,
    key: Seq<char>,
    value: Json,
    at: Seq<char>,
    path: Seq<char>,
)
    requires
        !members.contains_key(key),
        !(value is Null),
        path == if at.len() == 0 {
            key
        } else {
            at + "."@ + key
        },
    ensures
        schema::paths(Json::Object(members.insert(key, value)), at) == schema::paths(
            Json::Object(members),
            at,
        ).insert(path).union(schema::paths(value, path)),
{
    let more = members.insert(key, value);
    let a = schema::paths(Json::Object(more), at);
    let b = schema::paths(Json::Object(members), at);
    let c = schema::paths(value, path);
    assert(schema::member_path(at, key) == path);
    assert forall|p: Seq<char>| a.contains(p) <==> b.insert(path).union(c).contains(p) by {
        if a.contains(p) {
            let k = choose|k: Seq<char>| #[trigger]
                more.contains_key(k) && !(more[k] is Null) && (p == schema::member_path(at, k)
                    || schema::paths(more[k], schema::member_path(at, k)).contains(p));
            if k != key {
                assert(members.contains_key(k) && members[k] == more[k]);
                assert(b.contains(p));
            }
        }
        if b.contains(p) {
            let k = choose|k: Seq<char>| #[trigger]
                members.contains_key(k) && !(members[k] is Null) && (p == schema::member_path(
                    at,
                    k,
                ) || schema::paths(members[k], schema::member_path(at, k)).contains(p));
            assert(more.contains_key(k) && more[k] == members[k]);
        }
        if p == path || c.contains(p) {
            assert(more.contains_key(key) && more[key] == value);
        }
    }
    assert(a =~= b.insert(path).union(c));
}

/// A further member of an object that is null adds nothing.
pub proof fn law_null_member_adds_nothing(
    members: Map<Seq<char>, Json>,
    key: Seq<char>,
    at: Seq<char>,
)
    requires
        !members.contains_key(key),
    ensures
        schema::paths(Json::Object(members.insert(key, Json::Null)), at) == schema::paths(
            Json::Object(members),
            at,
        ),
{
    let more = members.insert(key, Json::Null);
    let a = schema::paths(Json::Object(more), at);
    let b = schema::paths(Json::Object(members), at);
    assert forall|p: Seq<char>| a.contains(p) <==> b.contains(p) by {
        if a.contains(p) {
            let k = choose|k: Seq<char>| #[trigger]
                more.contains_key(k) && !(more[k] is Null) && (p == schema::member_path(at, k)
                    || schema::paths(more[k], schema::member_path(at, k)).contains(p));
            assert(members.contains_key(k) && members[k] == more[k]);
        }
        if b.contains(p) {
            let k = choose|k: Seq<char>| #[trigger]
                members.contains_key(k) && !(members[k] is Null) && (p == schema::member_path(
                    at,
                    k,
                ) || schema::paths(members[k], schema::member_path(at, k)).contains(p));
            assert(more.contains_key(k) && more[k] == members[k]);
        }
    }
    assert(a =~= b);
}

/// An object without members, and an array without elements, have no keys below them.
pub proof fn law_empty_payloads_have_no_keys(at: Seq<char>)
    ensures
        schema::paths(Json::Object(Map::<Seq<char>, Json>::empty()), at) == Set::<
            Seq<char>,
        >::empty(),
        schema::paths(Json::Array(Seq::<Json>::empty()), at) == Set::<Seq<char>>::empty(),
{
    assert(schema::paths(Json::Object(Map::<Seq<char>, Json>::empty()), at) =~= Set::<
        Seq<char>,
    >::empty());
    assert(schema::paths(Json::Array(Seq::<Json>::empty()), at) =~= Set::<Seq<char>>::empty());
}

/// A further element of an array that is not null adds the path of the elements, which is that of
/// the array with brackets behind it, and all paths below it; one that is null adds nothing.
pub proof fn law_element_adds_its_paths(items: Seq<Json>, value: Json, at: Seq<char>)
    ensures
        value is Null ==> schema::paths(Json::Array(items.push(value)), at) == schema::paths(
            Json::Array(items),
            at,
        ),
        !(value is Null) ==> schema::paths(Json::Array(items.push(value)), at) == schema::paths(
            Json::Array(items),
            at,
        ).insert(at + "[]"@).union(schema::paths(value, at + "[]"@)),
{
    let more = items.push(value);
    let path = at + "[]"@;
    assert(schema::element_path(at) == path);
    let a = schema::paths(Json::Array(more), at);
    let b = schema::paths(Json::Array(items), at);
    let c = schema::paths(value, path);
    let n = items.len() as int;
    assert forall|p: Seq<char>|
        a.contains(p) <==> b.contains(p) || (!(value is Null) && (p == path || c.contains(p))) by {
        if a.contains(p) {
            let i = choose|i: int|
                0 <= i < more.len() && !(#[trigger] more[i] is Null) && (p == path
                    || schema::paths(more[i], path).contains(p));
            if i < n {
                assert(items[i] == more[i]);
            }
        }
        if b.contains(p) {
            let i = choose|i: int|
                0 <= i < items.len() && !(#[trigger] items[i] is Null) && (p == path
                    || schema::paths(items[i], path).contains(p));
            assert(more[i] == items[i]);
        }
        assert(more[n] == value);
    }
    if value is Null {
        assert(a =~= b);
    } else {
        assert(a =~= b.insert(path).union(c));
    }
}

/// What a check says of a frame, told by the members of the frame: an error is one that is not
/// null, its code an integer of at most 64 bits, its message a text; and the fingerprint is that
/// of the result of a response and of the parameters of a notification.
pub proof fn law_check_reads_the_frame(
    check: FrameCheck,
    kind: FrameKind,
    raw: Json,
    code: i64,
    message: Seq<char>,
)
    requires
        schema::checks(check, kind, raw),
    ensures
        check.error_response <==> raw.member("error"@) is Some && !(raw.member("error"@)->0
            is Null),
        check.error_code == Some(code) <==> raw.member("error"@) is Some && raw.member(
            "error"@,
        )->0.member("code"@) == Some(Json::Number(text::integer(code as int))),
        (check.error_message is Some && check.error_message->0@ == message) <==> raw.member(
            "error"@,
        ) is Some && raw.member("error"@)->0.member("message"@) == Some(Json::Text(message)),
        kind == FrameKind::Response && raw.member("result"@) is Some ==> check.fingerprint@
            == schema::paths(raw.member("result"@)->0, seq![]),
        kind == FrameKind::Response && raw.member("result"@) is None ==> check.fingerprint@
            == Set::<Seq<char>>::empty(),
        kind == FrameKind::Notification && raw.member("params"@) is Some ==> check.fingerprint@
            == schema::paths(raw.member("params"@)->0, seq![]),
        kind == FrameKind::Notification && raw.member("params"@) is None ==> check.fingerprint@
            == Set::<Seq<char>>::empty(),
{
    text_laws::law_sign_of_numbers(code as int);
    if check.error_code is Some {
        text_laws::law_sign_of_numbers(check.error_code->0 as int);
    }
}

} // verus!
