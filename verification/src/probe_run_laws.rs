//! What a probe does with each thing that happens to it, told by what is shown, sent and awaited.
use vstd::prelude::*;

use crate::acp_client;
use crate::json;
use crate::json::Json;
use crate::probe;
use crate::probe::{ActionModel, EffectModel, EventModel, NextModel, ProbeModel, Stage};
use crate::probe_laws;
use crate::text;

verus! {

/// A line on the standard output with a frame that arrived.
pub open spec fn shows(frame: Json) -> EffectModel {
    EffectModel::Inbound("← "@ + json::pretty_form(frame))
}

/// All that is shown and sent in the course of some events.
pub open spec fn all_effects(start: ProbeModel, events: Seq<EventModel>) -> Seq<EffectModel>
    decreases events.len(),
{
    if events.len() == 0 {
        seq![]
    } else {
        all_effects(start, events.drop_last()) + probe_laws::after(
            start,
            events.drop_last(),
        ).advanced(events.last()).1.effects
    }
}

/// The events of some frames that arrive one after the other.
pub open spec fn arriving(frames: Seq<Json>) -> Seq<EventModel> {
    frames.map_values(|f: Json| EventModel::Frame(f))
}

/// What a probe is about never changes; only its stage does.
pub proof fn law_settings_stay(probe: ProbeModel, event: EventModel)
    ensures
        ({
            let next = probe.advanced(event).0;
            &&& next.agent == probe.agent
            &&& next.method == probe.method
            &&& next.params == probe.params
            &&& next.version == probe.version
            &&& next.timeout_secs == probe.timeout_secs
            &&& next.linger_secs == probe.linger_secs
        }),
{
}

/// While a probe waits for an answer that a frame is not, or is lingering, the frame is shown, and
/// reading goes on as before.
proof fn lemma_frame_is_shown(probe: ProbeModel, frame: Json)
    requires
        match probe.stage {
            Stage::Initializing => frame.member("id"@) != Some(Json::Number(text::integer(1))),
            Stage::Calling => frame.member("id"@) != Some(Json::Number(text::integer(2))),
            Stage::Lingering => true,
            _ => false,
        },
    ensures
        probe.advanced(EventModel::Frame(frame)).0 == probe,
        probe.advanced(EventModel::Frame(frame)).1.effects == seq![shows(frame)],
        probe.advanced(EventModel::Frame(frame)).1.next == if probe.stage == Stage::Initializing {
            NextModel::ReadWithin(probe.timeout_secs)
        } else {
            NextModel::ReadOn
        },
{
}

/// However many frames arrive in one stage without ending it, all of them are shown, in order, and
/// nothing else is shown or sent; the probe stays as it is, and after each the same is awaited as
/// before. In the handshake these are the frames whose id is not 1, in the call those whose id is
/// not 2, and while the probe is lingering, all frames.
pub proof fn law_every_frame_is_shown_in_order(start: ProbeModel, frames: Seq<Json>)
    requires
        start.stage == Stage::Initializing || start.stage == Stage::Calling || start.stage
            == Stage::Lingering,
        start.stage == Stage::Initializing ==> forall|i: int|
            0 <= i < frames.len() ==> (#[trigger] frames[i]).member("id"@) != Some(
                Json::Number(text::integer(1)),
            ),
        start.stage == Stage::Calling ==> forall|i: int|
            0 <= i < frames.len() ==> (#[trigger] frames[i]).member("id"@) != Some(
                Json::Number(text::integer(2)),
            ),
    ensures
        probe_laws::after(start, arriving(frames)) == start,
        all_effects(start, arriving(frames)) == frames.map_values(
            |f: Json| EffectModel::Inbound("← "@ + json::pretty_form(f)),
        ),
        frames.len() > 0 ==> start.advanced(EventModel::Frame(frames.last())).1.next
            == if start.stage == Stage::Initializing {
            NextModel::ReadWithin(start.timeout_secs)
        } else {
            NextModel::ReadOn
        },
    decreases frames.len(),
{
    let show = |f: Json| EffectModel::Inbound("← "@ + json::pretty_form(f));
    if frames.len() == 0 {
        assert(all_effects(start, arriving(frames)) =~= frames.map_values(show));
    } else {
        let rest = frames.drop_last();
        assert forall|i: int| 0 <= i < rest.len() implies #[trigger] rest[i] == frames[i] by {}
        law_every_frame_is_shown_in_order(start, rest);
        assert(frames[frames.len() - 1] == frames.last());
        lemma_frame_is_shown(start, frames.last());
        assert(arriving(frames).drop_last() =~= arriving(rest));
        assert(arriving(frames).last() == EventModel::Frame(frames.last()));
        assert(all_effects(start, arriving(frames)) =~= frames.map_values(show));
    }
}

/// Lingering ends with a failed read or with the end of its time, and with nothing else: then the
/// stream is finished and nothing more is shown. A frame never ends it, whatever it holds.
pub proof fn law_lingering_ends_with_the_stream_or_the_time(probe: ProbeModel, event: EventModel)
    requires
        probe.stage == Stage::Lingering,
    ensures
        ({
            let (next, action) = probe.advanced(event);
            let over = event is ReadFailed || event is Expired;
            &&& next.stage == if over { Stage::Done } else { Stage::Lingering }
            &&& over ==> action.next == NextModel::Finish && action.effects.len() == 0
            &&& event is Frame ==> action.next == NextModel::ReadOn && action.effects == seq![
                EffectModel::Inbound("← "@ + json::pretty_form(event->Frame_0)),
            ]
            &&& event is Ack ==> action.next == NextModel::Ignored && action.effects.len() == 0
        }),
{
}

/// An accepted connection is noted with the agent's name; then `initialize` is shown and sent, and
/// its answer is awaited for as long as a response may take.
pub proof fn law_accepted_connection_begins_handshake(
    probe: ProbeModel,
    error: Option<Seq<char>>,
)
    requires
        probe.stage == Stage::Connecting,
    ensures
        ({
            let (next, action) = probe.advanced(EventModel::Ack { ok: true, error });
            &&& next.stage == Stage::Initializing
            &&& action.next == NextModel::ReadWithin(probe.timeout_secs)
            &&& action.effects.len() == 2
            &&& action.effects[0] == EffectModel::Note(
                "probe: connect ok agent="@ + probe.agent + "; switching to JSONL"@,
            )
            &&& action.effects[1] is Send
            &&& is_initialize(action.effects[1]->value, probe.version)
            &&& action.effects[1]->shown == "→ "@ + json::pretty_form(action.effects[1]->value)
        }),
{
    lemma_initialize(probe.version);
}

/// The members of an object and their names.
pub open spec fn has_members(value: Json, names: Set<Seq<char>>) -> bool {
    value is Object && value->Object_0.dom() == names
}

/// Whether a value is the request that opens the handshake of a client of this version.
pub open spec fn is_initialize(value: Json, version: Seq<char>) -> bool {
    &&& has_members(value, set!["jsonrpc"@, "id"@, "method"@, "params"@])
    &&& value.member("jsonrpc"@) == Some(Json::Text("2.0"@))
    &&& value.member("id"@) == Some(Json::Number(text::integer(1)))
    &&& value.member("method"@) == Some(Json::Text("initialize"@))
    &&& {
        let params = value.member("params"@)->0;
        let info = params.member("clientInfo"@)->0;
        &&& has_members(params, set!["clientInfo"@, "capabilities"@])
        &&& has_members(params.member("capabilities"@)->0, Set::empty())
        &&& has_members(info, set!["name"@, "version"@, "title"@])
        &&& info.member("name"@) == Some(Json::Text("alleycat-probe"@))
        &&& info.member("version"@) == Some(Json::Text(version))
        &&& info.member("title"@) == Some(Json::Text("alleycat-probe"@))
    }
}

proof fn lemma_initialize(version: Seq<char>)
    ensures
        is_initialize(probe::initialize_json(version), version),
{
    acp_client::lemma_member_names();
    probe::lemma_initialize_names();
    let value = probe::initialize_json(version);
    assert(value->Object_0.dom() =~= set!["jsonrpc"@, "id"@, "method"@, "params"@]);
    let params = value.member("params"@)->0;
    assert(params->Object_0.dom() =~= set!["clientInfo"@, "capabilities"@]);
    let info = params.member("clientInfo"@)->0;
    assert(info->Object_0.dom() =~= set!["name"@, "version"@, "title"@]);
    let none = params.member("capabilities"@)->0;
    assert(none->Object_0.dom() =~= Set::<Seq<char>>::empty());
}

/// Once `initialize` has succeeded, its answer is shown; then the handshake is closed and the
/// method is called, with exactly the parameters that were given, each frame shown before it is
/// sent. The time for the response begins with the call.
pub proof fn law_success_is_followed_by_the_call(probe: ProbeModel, frame: Json)
    requires
        probe.stage == Stage::Initializing,
        frame.member("id"@) == Some(Json::Number(text::integer(1))),
        frame.member("error"@) is None || frame.member("error"@) == Some(Json::Null),
    ensures
        ({
            let (next, action) = probe.advanced(EventModel::Frame(frame));
            let (closing, call) = (action.effects[1], action.effects[2]);
            &&& next.stage == Stage::Calling
            &&& action.next == NextModel::BeginResponse(probe.timeout_secs)
            &&& action.effects.len() == 3
            &&& action.effects[0] == EffectModel::Inbound("← "@ + json::pretty_form(frame))
            &&& closing is Send && closing->shown == "→ "@ + json::pretty_form(closing->value)
            &&& has_members(closing->value, set!["jsonrpc"@, "method"@, "params"@])
            &&& closing->value.member("jsonrpc"@) == Some(Json::Text("2.0"@))
            &&& closing->value.member("method"@) == Some(Json::Text("initialized"@))
            &&& has_members(closing->value.member("params"@)->0, Set::empty())
            &&& call is Send && call->shown == "→ "@ + json::pretty_form(call->value)
            &&& has_members(call->value, set!["jsonrpc"@, "id"@, "method"@, "params"@])
            &&& call->value.member("jsonrpc"@) == Some(Json::Text("2.0"@))
            &&& call->value.member("id"@) == Some(Json::Number(text::integer(2)))
            &&& call->value.member("method"@) == Some(Json::Text(probe.method))
            &&& call->value.member("params"@) == Some(probe.params)
        }),
{
    acp_client::lemma_member_names();
    let closing = probe::initialized_json();
    assert(closing->Object_0.dom() =~= set!["jsonrpc"@, "method"@, "params"@]);
    assert(closing.member("params"@)->0->Object_0.dom() =~= Set::<Seq<char>>::empty());
    let call = probe::call_json(probe.method, probe.params);
    assert(call->Object_0.dom() =~= set!["jsonrpc"@, "id"@, "method"@, "params"@]);
}

/// A failed `initialize` is shown, and the probe fails with the message of the error.
pub proof fn law_failure_carries_the_message(probe: ProbeModel, frame: Json, error: Json)
    requires
        probe.stage == Stage::Initializing,
        frame.member("id"@) == Some(Json::Number(text::integer(1))),
        frame.member("error"@) == Some(error),
        !(error is Null),
    ensures
        ({
            let (next, action) = probe.advanced(EventModel::Frame(frame));
            &&& next.stage == Stage::Done
            &&& action.effects == seq![EffectModel::Inbound("← "@ + json::pretty_form(frame))]
            &&& forall|message: Seq<char>|
                error.member("message"@) == Some(Json::Text(message)) ==> action.next
                    == NextModel::Fail(#[trigger] ("initialize failed: "@ + message))
            &&& !(error.member("message"@) matches Some(Json::Text(_))) ==> action.next
                == NextModel::Fail("initialize failed: "@ + "<no error>"@)
        }),
{
}

/// A stream that fails in the handshake fails the probe.
pub proof fn law_broken_handshake_fails(probe: ProbeModel, reason: Seq<char>)
    requires
        probe.stage == Stage::Initializing,
    ensures
        ({
            let (next, action) = probe.advanced(EventModel::ReadFailed(reason));
            &&& next.stage == Stage::Done
            &&& action.effects.len() == 0
            &&& action.next == NextModel::Fail("reading initialize response"@)
        }),
{
}

/// However the call ends, it is said how: the response is shown, or the reason of a failed read and
/// that there is no response, or the latter alone. Then the probe lingers for the time that was
/// asked for and says so, or finishes where none was.
pub proof fn law_end_of_the_call_is_told(probe: ProbeModel, event: EventModel)
    requires
        probe.stage == Stage::Calling,
        match event {
            EventModel::Ack { .. } => false,
            EventModel::Frame(frame) => frame.member("id"@) == Some(
                Json::Number(text::integer(2)),
            ),
            _ => true,
        },
    ensures
        ({
            let (next, action) = probe.advanced(event);
            let silence = EffectModel::Note(
                "probe: did not receive response to id=2 ("@ + probe.method + ") within "@
                    + text::decimal(probe.timeout_secs as nat) + "s"@,
            );
            let told = match event {
                EventModel::Frame(frame) => seq![
                    EffectModel::Inbound("← "@ + json::pretty_form(frame)),
                ],
                EventModel::ReadFailed(reason) => seq![
                    EffectModel::Note("probe: read error: "@ + reason),
                    silence,
                ],
                _ => seq![silence],
            };
            let n = told.len() as int;
            &&& action.effects.take(n) == told
            &&& probe.linger_secs == 0 ==> {
                &&& action.effects.len() == n
                &&& next.stage == Stage::Done
                &&& action.next == NextModel::Finish
            }
            &&& probe.linger_secs > 0 ==> {
                &&& action.effects.len() == n + 1
                &&& action.effects[n] == EffectModel::Note(
                    "probe: lingering "@ + text::decimal(probe.linger_secs as nat)
                        + "s for trailing frames"@,
                )
                &&& next.stage == Stage::Lingering
                &&& action.next == NextModel::BeginLinger(probe.linger_secs)
            }
        }),
{
    let action = probe.advanced(event).1;
    let silence = EffectModel::Note(
        "probe: did not receive response to id=2 ("@ + probe.method + ") within "@
            + text::decimal(probe.timeout_secs as nat) + "s"@,
    );
    let told = match event {
        EventModel::Frame(frame) => seq![EffectModel::Inbound("← "@ + json::pretty_form(frame))],
        EventModel::ReadFailed(reason) => seq![
            EffectModel::Note("probe: read error: "@ + reason),
            silence,
        ],
        _ => seq![silence],
    };
    assert(action.effects.take(told.len() as int) =~= told);
}

/// What comes at the wrong time changes nothing, and nothing is shown or sent for it.
pub proof fn law_untimely_events_change_nothing(probe: ProbeModel, event: EventModel)
    requires
        match probe.stage {
            Stage::Connecting => !(event is Ack),
            Stage::Initializing => event is Ack || event is Expired,
            Stage::Calling => event is Ack,
            Stage::Lingering => event is Ack,
            Stage::Done => true,
        },
    ensures
        probe.advanced(event).0 == probe,
        probe.advanced(event).1 == (ActionModel { effects: seq![], next: NextModel::Ignored }),
{
}

} // verus!
