//! What holds of every probe, whatever the daemon and the agent do.
use vstd::prelude::*;

use crate::acp_client;
use crate::json::Json;
use crate::probe;
use crate::probe::{EffectModel, EventModel, NextModel, ProbeModel, Stage};
use crate::text;

verus! {

/// The place of a stage in the course of a probe.
pub open spec fn place(stage: Stage) -> nat {
    match stage {
        Stage::Connecting => 0,
        Stage::Initializing => 1,
        Stage::Calling => 2,
        Stage::Lingering => 3,
        Stage::Done => 4,
    }
}

/// Where a probe stands after some events.
pub open spec fn after(start: ProbeModel, events: Seq<EventModel>) -> ProbeModel
    decreases events.len(),
{
    if events.len() == 0 {
        start
    } else {
        after(start, events.drop_last()).advanced(events.last()).0
    }
}

/// The values that are sent in the course of some effects.
pub open spec fn sends(effects: Seq<EffectModel>) -> Seq<Json>
    decreases effects.len(),
{
    if effects.len() == 0 {
        seq![]
    } else {
        match effects.last() {
            EffectModel::Send { value, .. } => sends(effects.drop_last()).push(value),
            _ => sends(effects.drop_last()),
        }
    }
}

/// The values that are sent in the course of some events.
pub open spec fn all_sends(start: ProbeModel, events: Seq<EventModel>) -> Seq<Json>
    decreases events.len(),
{
    if events.len() == 0 {
        seq![]
    } else {
        all_sends(start, events.drop_last()) + sends(
            after(start, events.drop_last()).advanced(events.last()).1.effects,
        )
    }
}

/// All that a probe ever sends: the handshake, and the call.
pub open spec fn script(probe: ProbeModel) -> Seq<Json> {
    seq![
        probe::initialize_json(probe.version),
        probe::initialized_json(),
        probe::call_json(probe.method, probe.params),
    ]
}

/// Whether a frame answers the request that opens the handshake.
pub open spec fn answers_initialize(frame: Json) -> bool {
    frame.member("id"@) == Some(Json::Number(text::integer(1)))
}

/// What one event makes a probe send.
proof fn lemma_sends(probe: ProbeModel, event: EventModel)
    ensures
        sends(probe.advanced(event).1.effects) == match (probe.stage, event) {
            (Stage::Connecting, EventModel::Ack { ok, .. }) if ok => script(probe).take(1),
            (Stage::Initializing, EventModel::Frame(frame)) if answers_initialize(frame)
                && probe::failure(frame) is None => script(probe).skip(1),
            _ => seq![],
        },
{
    reveal_with_fuel(sends, 5);
    let effects = probe.advanced(event).1.effects;
    if effects.len() > 0 {
        let rest = effects.drop_last();
        if rest.len() > 0 {
            assert(rest.last() == effects[effects.len() - 2]);
            let first = rest.drop_last();
            if first.len() > 0 {
                assert(first.last() == effects[effects.len() - 3]);
            }
        }
    }
}

/// What a probe is about does not change; only its stage does.
proof fn lemma_settings_stay(start: ProbeModel, events: Seq<EventModel>)
    ensures
        after(start, events) == start.at(after(start, events).stage),
    decreases events.len(),
{
    if events.len() > 0 {
        lemma_settings_stay(start, events.drop_last());
    }
}

/// Whatever happens, what has been sent is the start of the script: nothing is sent twice, out of
/// order, or besides it. While the agent has not answered `initialize`, the call is not made;
/// once `initialize` has succeeded, it is made.
pub proof fn law_sends_follow_script(start: ProbeModel, events: Seq<EventModel>)
    requires
        start.stage == Stage::Connecting,
    ensures
        exists|n: int|
            #![trigger script(start).take(n)]
            0 <= n <= 3 && all_sends(start, events) == script(start).take(n),
        after(start, events).stage == Stage::Connecting ==> all_sends(start, events).len() == 0,
        after(start, events).stage == Stage::Initializing ==> all_sends(start, events).len() == 1,
        after(start, events).stage == Stage::Calling || after(start, events).stage
            == Stage::Lingering ==> all_sends(start, events) == script(start),
    decreases events.len(),
{
    if events.len() == 0 {
        assert(all_sends(start, events) =~= script(start).take(0));
    } else {
        let earlier = events.drop_last();
        law_sends_follow_script(start, earlier);
        lemma_settings_stay(start, earlier);
        let probe = after(start, earlier);
        lemma_sends(probe, events.last());
        let n = choose|n: int|
            #![trigger script(start).take(n)]
            0 <= n <= 3 && all_sends(start, earlier) == script(start).take(n);
        assert(script(probe) == script(start));
        assert(script(start).take(0) + script(start).take(1) =~= script(start).take(1));
        assert(script(start).take(1) + script(start).skip(1) =~= script(start));
        assert(script(start).take(3) =~= script(start));
        assert(script(start).take(n) + Seq::<Json>::empty() =~= script(start).take(n));
    }
}

/// A probe never goes back to an earlier stage.
pub proof fn law_stages_advance(probe: ProbeModel, event: EventModel)
    ensures
        place(probe.stage) <= place(probe.advanced(event).0.stage),
{
}

/// A connection that is refused ends the probe with the daemon's reason, and nothing is shown or
/// sent.
pub proof fn law_refusal_ends_probe(probe: ProbeModel, error: Option<Seq<char>>)
    requires
        probe.stage == Stage::Connecting,
    ensures
        ({
            let (next, action) = probe.advanced(EventModel::Ack { ok: false, error });
            &&& next.stage == Stage::Done
            &&& action.effects.len() == 0
            &&& action.next == NextModel::Fail(
                "connect rejected: "@ + match error {
                    Some(error) => error,
                    None => "<no error>"@,
                },
            )
        }),
{
}

/// While the answer to `initialize` is awaited, any other frame, whatever its id, is shown and
/// changes nothing; only that answer ends the wait.
pub proof fn law_wait_ends_with_answer(probe: ProbeModel, frame: Json)
    requires
        probe.stage == Stage::Initializing,
    ensures
        !answers_initialize(frame) ==> {
            let (next, action) = probe.advanced(EventModel::Frame(frame));
            &&& next == probe
            &&& action.effects == seq![probe::received(frame)]
            &&& action.next == NextModel::ReadWithin(probe.timeout_secs)
        },
        answers_initialize(frame) ==> probe.advanced(EventModel::Frame(frame)).0.stage
            != Stage::Initializing,
{
}

/// The method is called with the event at hand exactly if that is a successful answer to
/// `initialize`.
pub proof fn law_call_follows_success(probe: ProbeModel, event: EventModel)
    ensures
        sends(probe.advanced(event).1.effects).contains(
            probe::call_json(probe.method, probe.params),
        ) <==> probe.stage == Stage::Initializing && event is Frame && answers_initialize(
            event->Frame_0,
        ) && probe::failure(event->Frame_0) is None,
{
    lemma_sends(probe, event);
    let call = probe::call_json(probe.method, probe.params);
    assert(script(probe).skip(1)[1] == call);
    acp_client::lemma_member_names();
    if text::decimal(1) == text::decimal(2) {
        text::lemma_decimal_injective(1, 2);
    }
    assert(call.member("id"@) == Some(Json::Number(text::integer(2))));
    assert(answers_initialize(probe::initialize_json(probe.version)));
    assert(script(probe).take(1) =~= seq![probe::initialize_json(probe.version)]);
}

/// An `initialize` that failed is shown and ends the probe: nothing more is sent.
pub proof fn law_failed_initialize_ends_probe(probe: ProbeModel, frame: Json)
    requires
        probe.stage == Stage::Initializing,
        answers_initialize(frame),
        probe::failure(frame) is Some,
    ensures
        ({
            let (next, action) = probe.advanced(EventModel::Frame(frame));
            &&& next.stage == Stage::Done
            &&& action.effects == seq![probe::received(frame)]
            &&& action.next is Fail
        }),
{
}

/// Every frame that arrives once the connection stands is shown, before anything else is shown or
/// sent, and once only.
pub proof fn law_frames_are_shown(probe: ProbeModel, frame: Json)
    requires
        1 <= place(probe.stage) <= 3,
    ensures
        ({
            let effects = probe.advanced(EventModel::Frame(frame)).1.effects;
            &&& effects.len() > 0
            &&& effects[0] == probe::received(frame)
            &&& forall|i: int| 0 < i < effects.len() ==> !(#[trigger] effects[i] is Inbound)
        }),
{
}

/// The call is over with a frame exactly if that frame's id is the call's.
pub proof fn law_response_ends_call(probe: ProbeModel, frame: Json)
    requires
        probe.stage == Stage::Calling,
    ensures
        probe.advanced(EventModel::Frame(frame)).0.stage != Stage::Calling <==> frame.member("id"@)
            == Some(Json::Number(text::integer(2))),
{
}

/// A call that is over without a response is reported; one that was answered is not.
pub proof fn law_missing_response_is_reported(probe: ProbeModel, event: EventModel)
    requires
        probe.stage == Stage::Calling,
        probe.advanced(event).0.stage != Stage::Calling,
    ensures
        probe.advanced(event).1.effects.contains(probe.no_response()) <==> !(event is Frame),
{
    let effects = probe.advanced(event).1.effects;
    reveal_strlit("probe: did not receive response to id=2 (");
    reveal_strlit("probe: lingering ");
    match event {
        EventModel::ReadFailed(_) => {
            assert(effects[1] == probe.no_response());
        },
        EventModel::Expired => {
            assert(effects[0] == probe.no_response());
        },
        _ => {
            let said = "probe: did not receive response to id=2 ("@ + probe.method + ") within "@
                + text::decimal(probe.timeout_secs as nat) + "s"@;
            let lingering = "probe: lingering "@ + text::decimal(probe.linger_secs as nat)
                + "s for trailing frames"@;
            assert(said[7] == 'd' && lingering[7] == 'l');
            assert(effects[0] is Inbound);
            assert(effects.len() > 1 ==> effects[1] == EffectModel::Note(lingering));
            assert(probe.no_response() == EffectModel::Note(said));
            assert forall|i: int| 0 <= i < effects.len() implies effects[i]
                != probe.no_response() by {
                assert(i == 0 || i == 1);
            }
        },
    }
}

/// A probe lingers after the call exactly if it was asked to.
pub proof fn law_linger_is_asked_for(probe: ProbeModel, event: EventModel)
    requires
        probe.stage == Stage::Calling,
        probe.advanced(event).0.stage != Stage::Calling,
    ensures
        probe.linger_secs > 0 ==> probe.advanced(event).1.next == NextModel::BeginLinger(
            probe.linger_secs,
        ),
        probe.linger_secs == 0 ==> probe.advanced(event).1.next == NextModel::Finish,
{
}

/// Once a probe is over, nothing more is shown, sent or awaited.
pub proof fn law_done_is_final(start: ProbeModel, events: Seq<EventModel>, event: EventModel)
    requires
        after(start, events).stage == Stage::Done,
    ensures
        after(start, events).advanced(event).0 == after(start, events),
        after(start, events).advanced(event).1.effects.len() == 0,
        after(start, events).advanced(event).1.next == NextModel::Ignored,
{
}

} // verus!
