//! What holds of every conversation with an ACP agent.
use vstd::prelude::*;

use crate::acp_client;
use crate::acp_client::{ClientModel, Route};
use crate::json::Json;
use crate::text;

verus! {

/// The client after a number of frames.
pub open spec fn after_frames(client: ClientModel, frames: Seq<Json>) -> ClientModel
    decreases frames.len(),
{
    if frames.len() == 0 {
        client
    } else {
        after_frames(client, frames.drop_last()).dispatched(frames.last())
    }
}

/// A notification: a frame that carries no id.
pub open spec fn is_notification(frame: Json) -> bool {
    frame.member("id"@) is None
}

/// At most one response is awaited at a time, and whatever happens keeps it so, as long as no
/// request begins while another is in flight.
pub proof fn law_one_request_at_a_time(
    client: ClientModel,
    id: Seq<char>,
    streaming: bool,
    frame: Json,
)
    requires
        client.valid(),
    ensures
        forall|a: Seq<char>, b: Seq<char>|
            client.pending.contains(a) && client.pending.contains(b) ==> a == b,
        ClientModel::idle().valid(),
        client.in_flight is None ==> client.begun(id, streaming).valid(),
        client.dispatched(frame).valid(),
        client.settled().valid(),
        client.closed().valid(),
{
}

/// A response to the request in flight, whose id is given as the text it was sent with or as a
/// number that prints the same, is delivered to it; a second one finds nobody waiting.
pub proof fn law_response_is_delivered_once(
    client: ClientModel,
    id: Seq<char>,
    streaming: bool,
    first: Json,
    second: Json,
)
    requires
        first.member("id"@) == Some(Json::Text(id)) || first.member("id"@) == Some(
            Json::Number(id),
        ),
        second.member("id"@) == Some(Json::Text(id)) || second.member("id"@) == Some(
            Json::Number(id),
        ),
    ensures
        client.begun(id, streaming).route(first) == (Route::Deliver { id, frame: first }),
        client.begun(id, streaming).dispatched(first).route(second) == (Route::Unknown { id }),
{
}

/// A frame that repeats the id of a request answers that request.
pub proof fn law_echoed_id_answers(
    client: ClientModel,
    id: Seq<char>,
    streaming: bool,
    method: Seq<char>,
    params: Json,
    response: Json,
)
    requires
        response.member("id"@) == acp_client::request_json(id, method, params).member("id"@),
    ensures
        client.begun(id, streaming).route(response) == (Route::Deliver { id, frame: response }),
{
    reveal_strlit("id");
    reveal_strlit("method");
    reveal_strlit("params");
    assert("id"@.len() == 2 && "method"@.len() == 6 && "params"@.len() == 6);
    assert(acp_client::request_json(id, method, params).member("id"@) == Some(Json::Text(id)));
}

/// Requests of different numbers have different ids, so neither is answered by a response to the
/// other.
pub proof fn law_numbers_do_not_collide(m: nat, n: nat)
    requires
        m != n,
    ensures
        text::decimal(m) != text::decimal(n),
{
    if text::decimal(m) == text::decimal(n) {
        text::lemma_decimal_injective(m, n);
    }
}

/// What a counter says after it has given `k` numbers.
pub open spec fn counted(start: u64, k: nat) -> u64
    decreases k,
{
    if k == 0 {
        start
    } else {
        acp_client::following(counted(start, (k - 1) as nat))
    }
}

proof fn lemma_counted(start: u64, k: nat)
    ensures
        counted(start, k) == (start + k) % 0x1_0000_0000_0000_0000,
    decreases k,
{
    if k > 0 {
        lemma_counted(start, (k - 1) as nat);
    }
}

/// No two of the requests that one counter numbers share an id, as long as there are no more of
/// them than there are numbers.
pub proof fn law_no_two_requests_share_an_id(start: u64, i: nat, j: nat)
    requires
        i < j,
        j - i <= u64::MAX,
    ensures
        counted(start, i) != counted(start, j),
        text::decimal(counted(start, i) as nat) != text::decimal(counted(start, j) as nat),
{
    lemma_counted(start, i);
    lemma_counted(start, j);
    law_numbers_do_not_collide(counted(start, i) as nat, counted(start, j) as nat);
}

/// What happens to a client.
pub enum Operation {
    /// A request is registered and handed out to be written.
    Begin { id: Seq<char>, streaming: bool },
    /// A frame arrives.
    Frame(Json),
    /// The agent's output ends.
    Close,
    /// The subscriber goes away.
    Unsubscribe,
    /// The buffered notifications are taken.
    Take,
    /// The sender of a request has its response.
    Finish,
    /// The sender of a request gives up: it could not be written, or no response will come.
    GiveUp,
}

/// Whether an operation may happen to a client, as the operations of [`acp_client::AcpClient`]
/// require it.
pub open spec fn permitted(client: ClientModel, operation: Operation) -> bool {
    match operation {
        Operation::Begin { .. } => client.in_flight is None,
        Operation::Finish => client.answered(),
        _ => true,
    }
}

/// The client after an operation.
pub open spec fn operated(client: ClientModel, operation: Operation) -> ClientModel {
    match operation {
        Operation::Begin { id, streaming } => client.begun(id, streaming),
        Operation::Frame(frame) => client.dispatched(frame),
        Operation::Close => client.closed(),
        Operation::Unsubscribe => ClientModel { subscribed: false, ..client },
        Operation::Take => ClientModel { buffered: seq![], ..client },
        Operation::Finish => client.settled(),
        Operation::GiveUp => client.settled(),
    }
}

/// A new client after the first `n` of some operations.
pub open spec fn operated_upto(operations: Seq<Operation>, n: nat) -> ClientModel
    decreases n,
{
    if n == 0 {
        ClientModel::idle()
    } else {
        operated(operated_upto(operations, (n - 1) as nat), operations[n - 1])
    }
}

/// Whether each of some operations may happen to a new client after those before it. The
/// operations of calls that overlap in time may be mixed in any way that this allows.
pub open spec fn possible(operations: Seq<Operation>) -> bool {
    forall|n: nat|
        #![trigger operated_upto(operations, n)]
        n < operations.len() ==> permitted(
            operated_upto(operations, n),
            operations[n as int],
        )
}

/// At no time is a response awaited for two requests.
pub proof fn law_never_two_pending(operations: Seq<Operation>, n: nat)
    requires
        possible(operations),
        n <= operations.len(),
    ensures
        operated_upto(operations, n).valid(),
        forall|a: Seq<char>, b: Seq<char>|
            operated_upto(operations, n).pending.contains(a) && operated_upto(
                operations,
                n,
            ).pending.contains(b) ==> a == b,
    decreases n,
{
    if n > 0 {
        let before = (n - 1) as nat;
        law_never_two_pending(operations, before);
        assert(permitted(operated_upto(operations, before), operations[before as int]));
    }
}

/// Whether an operation ends a request.
pub open spec fn ends_request(operation: Operation) -> bool {
    operation is Finish || operation is GiveUp
}

/// A request stays in flight until its sender has its response or gives up.
proof fn lemma_in_flight(operations: Seq<Operation>, i: nat, n: nat)
    requires
        possible(operations),
        i < n <= operations.len(),
        operations[i as int] is Begin,
        forall|k: int| i < k < n ==> !ends_request(#[trigger] operations[k]),
    ensures
        operated_upto(operations, n).in_flight == Some(operations[i as int]->id),
    decreases n,
{
    if n > i + 1 {
        let before = (n - 1) as nat;
        lemma_in_flight(operations, i, before);
        assert(!ends_request(operations[before as int]));
        assert(permitted(operated_upto(operations, before), operations[before as int]));
    }
}

/// However calls overlap, a request is written only after the sender of the one before it has its
/// response or has given up.
pub proof fn law_requests_do_not_overlap(operations: Seq<Operation>, i: nat, j: nat)
    requires
        possible(operations),
        i < j < operations.len(),
        operations[i as int] is Begin,
        operations[j as int] is Begin,
    ensures
        exists|k: int| i < k < j && ends_request(#[trigger] operations[k]),
{
    if forall|k: int| i < k < j ==> !ends_request(#[trigger] operations[k]) {
        lemma_in_flight(operations, i, j);
        assert(permitted(operated_upto(operations, j), operations[j as int]));
    }
}

/// A sender has its response only after a frame was delivered to its request, or the agent's
/// output ended.
pub proof fn law_responses_come_from_the_agent(operations: Seq<Operation>, i: nat, n: nat)
    requires
        possible(operations),
        i < n < operations.len(),
        operations[i as int] is Begin,
        operations[n as int] is Finish,
        forall|k: int| i < k < n ==> !ends_request(#[trigger] operations[k]),
    ensures
        exists|k: int|
            i < k < n && answers(operations, #[trigger] operations[k], k, operations[i as int]->id),
{
    let id = operations[i as int]->id;
    if forall|k: int| i < k < n ==> !answers(operations, #[trigger] operations[k], k, id) {
        lemma_awaited(operations, i, n);
        lemma_in_flight(operations, i, n);
        assert(permitted(operated_upto(operations, n), operations[n as int]));
    }
}

/// Whether the operation at position `k` delivers a frame to the request `id` or closes the
/// client.
pub open spec fn answers(
    operations: Seq<Operation>,
    operation: Operation,
    k: int,
    id: Seq<char>,
) -> bool {
    match operation {
        Operation::Close => true,
        Operation::Frame(frame) => operated_upto(operations, k as nat).route(frame)
            == (Route::Deliver { id, frame }),
        _ => false,
    }
}

/// A request is awaited until it is answered.
proof fn lemma_awaited(operations: Seq<Operation>, i: nat, n: nat)
    requires
        possible(operations),
        i < n <= operations.len(),
        operations[i as int] is Begin,
        forall|k: int| i < k < n ==> !ends_request(#[trigger] operations[k]),
        forall|k: int|
            i < k < n ==> !answers(
                operations,
                #[trigger] operations[k],
                k,
                operations[i as int]->id,
            ),
    ensures
        operated_upto(operations, n).pending.contains(operations[i as int]->id),
    decreases n,
{
    if n > i + 1 {
        let before = (n - 1) as nat;
        lemma_awaited(operations, i, before);
        assert(!ends_request(operations[before as int]));
        assert(!answers(
            operations,
            operations[before as int],
            before as int,
            operations[i as int]->id,
        ));
        assert(permitted(operated_upto(operations, before), operations[before as int]));
        lemma_in_flight(operations, i, before);
    }
}

/// A response that nobody waits for changes nothing.
pub proof fn law_unknown_response_is_dropped(client: ClientModel, frame: Json)
    requires
        !is_notification(frame),
        !client.pending.contains(acp_client::id_key(frame.member("id"@)->0)),
    ensures
        client.dispatched(frame) == client,
        client.route(frame) is Unknown,
{
}

/// Every notification is buffered, in the order of arrival, whether or not it is forwarded, and
/// notifications change nothing else.
pub proof fn law_notifications_are_buffered(client: ClientModel, frames: Seq<Json>)
    requires
        forall|i: int| 0 <= i < frames.len() ==> is_notification(#[trigger] frames[i]),
    ensures
        after_frames(client, frames) == (ClientModel {
            buffered: client.buffered + frames,
            ..client
        }),
    decreases frames.len(),
{
    if frames.len() == 0 {
        assert(client.buffered + frames =~= client.buffered);
    } else {
        let rest = frames.drop_last();
        assert forall|i: int| 0 <= i < rest.len() implies is_notification(#[trigger] rest[i]) by {
            assert(rest[i] == frames[i]);
        }
        law_notifications_are_buffered(client, rest);
        assert(is_notification(frames[frames.len() - 1]));
        assert(client.buffered + frames =~= (client.buffered + rest).push(frames.last()));
    }
}

/// The notifications between a request and its response are exactly those that are buffered when
/// the response has been delivered: what came before the request is gone.
pub proof fn law_buffer_belongs_to_request(
    client: ClientModel,
    id: Seq<char>,
    streaming: bool,
    notes: Seq<Json>,
    response: Json,
)
    requires
        forall|i: int| 0 <= i < notes.len() ==> is_notification(#[trigger] notes[i]),
        response.member("id"@) == Some(Json::Text(id)),
    ensures
        after_frames(client.begun(id, streaming), notes).dispatched(response).buffered == notes,
        after_frames(client.begun(id, streaming), notes).dispatched(response).settled().buffered
            == notes,
{
    law_notifications_are_buffered(client.begun(id, streaming), notes);
    assert(Seq::<Json>::empty() + notes =~= notes);
}

/// While a streaming request waits, every notification is forwarded as it arrives. Once its
/// response is there, notifications are buffered and not forwarded, before its sender has the
/// outcome as well as after.
pub proof fn law_streaming_ends_with_response(
    client: ClientModel,
    id: Seq<char>,
    notes: Seq<Json>,
    note: Json,
    response: Json,
)
    requires
        forall|i: int| 0 <= i < notes.len() ==> is_notification(#[trigger] notes[i]),
        is_notification(note),
        response.member("id"@) == Some(Json::Text(id)),
    ensures
        after_frames(client.begun(id, true), notes).route(note) == (Route::Notify {
            forward: Some(note),
        }),
        ({
            let answered = after_frames(client.begun(id, true), notes).dispatched(response);
            &&& answered.route(note) == (Route::Notify { forward: None })
            &&& answered.dispatched(note).buffered == notes.push(note)
            &&& answered.settled().route(note) == (Route::Notify { forward: None })
        }),
{
    law_notifications_are_buffered(client.begun(id, true), notes);
    assert(Seq::<Json>::empty() + notes =~= notes);
}

/// However a request ends, nothing of it is left: it is not awaited, no request is in flight, and
/// notifications go to the buffer only.
pub proof fn law_settled_leaves_nothing(client: ClientModel)
    requires
        client.valid(),
    ensures
        client.settled().pending == Set::<Seq<char>>::empty(),
        client.settled().in_flight is None,
        !client.settled().subscribed,
        client.settled().buffered == client.buffered,
{
    assert(client.settled().pending =~= Set::<Seq<char>>::empty());
}

/// When the agent is gone, nobody is awaited any more, and whoever waited is told so.
pub proof fn law_closing_wakes_everyone(client: ClientModel)
    ensures
        client.closed().pending == Set::<Seq<char>>::empty(),
        acp_client::outcome(acp_client::closed_json()) == Err::<Json, Seq<char>>(
            "ACP agent connection closed"@,
        ),
{
    reveal_strlit("error");
    reveal_strlit("message");
    let closed = acp_client::closed_json();
    assert(closed.member("error"@) is Some);
    assert(closed.member("error"@)->0.member("message"@) == Some(
        Json::Text("ACP agent connection closed"@),
    ));
}

/// A response without an error gives its result, and one with an error never does.
pub proof fn law_errors_are_not_results(response: Json)
    ensures
        acp_client::outcome(response) is Err <==> response.member("error"@) is Some,
{
}

} // verus!
