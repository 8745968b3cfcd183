//! What a client writes and what it makes of what it reads.
use vstd::prelude::*;

use crate::acp_client;
use crate::acp_client::{ClientModel, Route};
use crate::json;
use crate::json::Json;

verus! {

/// A request is an object with four members: the protocol's version, the id as a text, the method,
/// and the parameters exactly as they were given.
pub proof fn law_request_carries_everything(id: Seq<char>, method: Seq<char>, params: Json)
    ensures
        ({
            let value = acp_client::request_json(id, method, params);
            &&& value is Object
            &&& forall|key: Seq<char>| #[trigger]
                value.member(key) is Some <==> key == "jsonrpc"@ || key == "id"@ || key
                    == "method"@ || key == "params"@
            &&& value.member("jsonrpc"@) == Some(Json::Text("2.0"@))
            &&& value.member("id"@) == Some(Json::Text(id))
            &&& value.member("method"@) == Some(Json::Text(method))
            &&& value.member("params"@) == Some(params)
        }),
{
    acp_client::lemma_member_names();
}

/// A notification is an object with three members: the protocol's version, the method, and the
/// parameters exactly as they were given. It has no id.
pub proof fn law_notification_carries_everything(method: Seq<char>, params: Json)
    ensures
        ({
            let value = acp_client::notification_json(method, params);
            &&& value is Object
            &&& forall|key: Seq<char>| #[trigger]
                value.member(key) is Some <==> key == "jsonrpc"@ || key == "method"@ || key
                    == "params"@
            &&& value.member("id"@) is None
            &&& value.member("jsonrpc"@) == Some(Json::Text("2.0"@))
            &&& value.member("method"@) == Some(Json::Text(method))
            &&& value.member("params"@) == Some(params)
        }),
{
    acp_client::lemma_member_names();
}

/// Different methods or parameters are written differently, and so are different ids.
pub proof fn law_nothing_is_lost_on_the_wire(
    id: Seq<char>,
    method: Seq<char>,
    params: Json,
    other_id: Seq<char>,
    other_method: Seq<char>,
    other_params: Json,
)
    ensures
        acp_client::request_json(id, method, params) == acp_client::request_json(
            other_id,
            other_method,
            other_params,
        ) ==> id == other_id && method == other_method && params == other_params,
        acp_client::notification_json(method, params) == acp_client::notification_json(
            other_method,
            other_params,
        ) ==> method == other_method && params == other_params,
{
    law_request_carries_everything(id, method, params);
    law_request_carries_everything(other_id, other_method, other_params);
    law_notification_carries_everything(method, params);
    law_notification_carries_everything(other_method, other_params);
}

/// A response without an error gives exactly its result, or null where it has none. One with an
/// error gives the error's message where that is a text, and else a fixed one.
pub proof fn law_outcomes(response: Json, message: Seq<char>)
    ensures
        response.member("error"@) is None && response.member("result"@) is Some
            ==> acp_client::outcome(response) == Ok::<Json, Seq<char>>(
            response.member("result"@)->0,
        ),
        response.member("error"@) is None && response.member("result"@) is None
            ==> acp_client::outcome(response) == Ok::<Json, Seq<char>>(Json::Null),
        response.member("error"@) is Some && response.member("error"@)->0.member("message"@)
            == Some(Json::Text(message)) ==> acp_client::outcome(response) == Err::<Json, Seq<char>>(
            message,
        ),
        response.member("error"@) is Some && !(response.member("error"@)->0.member("message"@)
            matches Some(Json::Text(_))) ==> acp_client::outcome(response) == Err::<
            Json,
            Seq<char>,
        >("ACP agent returned an error"@),
{
}

/// What one frame does: a frame without an id is appended to the buffer, whatever it holds, and
/// forwarded whole exactly while there is a subscriber; a frame with an id never touches the
/// buffer, and is delivered whole exactly if its id is awaited.
pub proof fn law_frames_are_routed_whole(client: ClientModel, frame: Json)
    ensures
        frame.member("id"@) is None ==> {
            &&& client.route(frame) == (Route::Notify {
                forward: if client.subscribed { Some(frame) } else { None },
            })
            &&& client.dispatched(frame).buffered == client.buffered.push(frame)
            &&& client.dispatched(frame).pending == client.pending
            &&& client.dispatched(frame).in_flight == client.in_flight
            &&& client.dispatched(frame).subscribed == client.subscribed
        },
        forall|id: Seq<char>|
            #![trigger client.pending.contains(id)]
            frame.member("id"@) == Some(Json::Text(id)) || frame.member("id"@) == Some(
                Json::Number(id),
            ) ==> {
                &&& client.dispatched(frame).buffered == client.buffered
                &&& client.dispatched(frame).in_flight == client.in_flight
                &&& client.dispatched(frame).pending == client.pending.remove(id)
                &&& client.pending.contains(id) ==> client.route(frame) == (Route::Deliver {
                    id,
                    frame,
                })
                &&& !client.pending.contains(id) ==> client.route(frame) == (Route::Unknown { id })
                    && client.dispatched(frame) == client
                &&& client.dispatched(frame).subscribed == (client.subscribed && !(
                client.pending.contains(id) && client.in_flight == Some(id)))
            },
{
    assert forall|id: Seq<char>|
        #![trigger client.pending.contains(id)]
        !client.pending.contains(id) implies client.pending.remove(id) == client.pending by {
        assert(client.pending.remove(id) =~= client.pending);
    }
}

/// What a request that begins changes: its id is awaited and in flight, notifications from before
/// it are gone, and forwarding begins with it exactly if it is a streaming one.
pub proof fn law_beginning(client: ClientModel, id: Seq<char>, streaming: bool)
    ensures
        ({
            let begun = client.begun(id, streaming);
            &&& begun.in_flight == Some(id)
            &&& forall|other: Seq<char>| #[trigger]
                begun.pending.contains(other) <==> other == id || client.pending.contains(other)
            &&& begun.buffered.len() == 0
            &&& !client.subscribed ==> begun.subscribed == streaming
        }),
{
}

/// What the end of a request changes: it is neither awaited nor in flight, and nothing is
/// forwarded. Other requests are awaited as before, and the buffer stays.
pub proof fn law_ending(client: ClientModel, id: Seq<char>)
    requires
        client.in_flight == Some(id),
    ensures
        ({
            let settled = client.settled();
            &&& settled.in_flight is None
            &&& forall|other: Seq<char>| #[trigger]
                settled.pending.contains(other) <==> other != id && client.pending.contains(other)
            &&& !settled.subscribed
            &&& settled.buffered == client.buffered
            &&& client.closed().in_flight == client.in_flight
            &&& client.closed().subscribed == client.subscribed
            &&& client.closed().buffered == client.buffered
        }),
{
}

/// An id is looked up by its text: that of a string without quotes, and of any other value its
/// compact form.
pub proof fn law_ids_are_looked_up_by_their_text(id: Json)
    ensures
        id is Text ==> acp_client::id_key(id) == id->Text_0,
        id is Number ==> acp_client::id_key(id) == id->Number_0,
        id is Null ==> acp_client::id_key(id) == "null"@,
        id == Json::Bool(true) ==> acp_client::id_key(id) == "true"@,
        id == Json::Bool(false) ==> acp_client::id_key(id) == "false"@,
        id is Array || id is Object ==> acp_client::id_key(id) == json::compact_form(id),
{
}

/// A client that has not sent anything awaits nothing, forwards nothing and has buffered nothing.
pub proof fn law_new_client_awaits_nothing(id: Seq<char>)
    ensures
        !ClientModel::idle().pending.contains(id),
        ClientModel::idle().in_flight is None,
        !ClientModel::idle().subscribed,
        ClientModel::idle().buffered.len() == 0,
{
}

/// The counter goes up by one, and from the largest number back to zero.
pub proof fn law_counter_goes_up_by_one(n: u64)
    ensures
        n < u64::MAX ==> acp_client::following(n) == n + 1,
        acp_client::following(u64::MAX) == 0,
{
}

} // verus!
