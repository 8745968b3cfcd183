//! What transcripts, reports, tables, events and routes say is what their fields hold.
use vstd::prelude::*;

use crate::acp_client::{Dispatch, Route};
use crate::diff::{ConformanceReport, Finding, FindingModel};
use crate::diff_laws;
use crate::divergence;
use crate::divergence::KnownDivergence;
use crate::json;
use crate::lines::LineError;
use crate::probe::{Action, Effect, EffectModel, Event, EventModel, Next, NextModel};
use crate::transcript::{TargetId, Transcript};

verus! {

/// A transcript says of each frame, in order, what the fields of the frame hold.
pub proof fn law_transcript_says_its_frames(t: Transcript, i: int)
    requires
        0 <= i < t.frames@.len(),
    ensures
        t@.len() == t.frames@.len(),
        t@[i].step == t.frames@[i].step@,
        t@[i].method == t.frames@[i].method@,
        t@[i].kind == t.frames@[i].kind,
        t@[i].check.error_response == t.frames@[i].check.error_response,
        t@[i].check.error_code == t.frames@[i].check.error_code,
        t@[i].check.fingerprint == t.frames@[i].check.fingerprint@,
        t@[i].check.error_message is Some <==> t.frames@[i].check.error_message is Some,
        t@[i].check.error_message is Some ==> t@[i].check.error_message->0
            == t.frames@[i].check.error_message->0@,
        t@[i].check.deserialize_error is Some <==> t.frames@[i].check.deserialize_error is Some,
        t@[i].check.deserialize_error is Some ==> t@[i].check.deserialize_error->0
            == t.frames@[i].check.deserialize_error->0@,
        t@[i].check.upstream_error is Some <==> t.frames@[i].check.upstream_error is Some,
        t@[i].check.upstream_error is Some ==> t@[i].check.upstream_error->0
            == t.frames@[i].check.upstream_error->0@,
{
}

/// Whether a finding says what a model of one says.
pub open spec fn says(finding: Finding, model: FindingModel) -> bool {
    match model {
        FindingModel::SchemaError { step: s, method: m, kind: k, message: e } => {
            finding matches Finding::SchemaError { step, method, kind, message } && (s, m, k, e)
                == (step@, method@, kind, message@)
        },
        FindingModel::UpstreamSchemaError { step: s, method: m, kind: k, message: e } => {
            finding matches Finding::UpstreamSchemaError { step, method, kind, message } && (
            s,
            m,
            k,
            e,
        ) == (step@, method@, kind, message@)
        },
        FindingModel::UnexpectedError { step: s, method: m, code: c, message: e } => {
            finding matches Finding::UnexpectedError { step, method, code, message } && (s, m, c, e)
                == (step@, method@, code, message@)
        },
        FindingModel::MissingResponse { step: s, method: m } => {
            finding matches Finding::MissingResponse { step, method } && (s, m) == (
                step@,
                method@,
            )
        },
        FindingModel::MissingNotification { step: s, method: m } => {
            finding matches Finding::MissingNotification { step, method } && (s, m) == (
                step@,
                method@,
            )
        },
        FindingModel::ExtraNotification { step: s, method: m } => {
            finding matches Finding::ExtraNotification { step, method } && (s, m) == (
                step@,
                method@,
            )
        },
        FindingModel::KeyDifference { step: s, method: m, kind: k, missing: a, extra: b } => {
            finding matches Finding::KeyDifference { step, method, kind, missing, extra } && (
            s,
            m,
            k,
            a,
            b,
        ) == (step@, method@, kind, missing@, extra@)
        },
    }
}

/// A report says of each finding, in order, what the fields of the finding hold.
pub proof fn law_report_says_its_findings(report: ConformanceReport, i: int)
    requires
        0 <= i < report.findings@.len(),
    ensures
        report@.len() == report.findings@.len(),
        says(report.findings@[i], report@[i]),
{
}

/// A table of divergences allows what its lists hold, and nothing else.
pub proof fn law_divergence_says_its_lists(div: KnownDivergence, method: Seq<char>, path: Seq<char>)
    ensures
        div@.skipped_methods.contains(method) <==> exists|i: int|
            0 <= i < div.skipped_methods@.len() && (#[trigger] div.skipped_methods@[i])@ == method,
        div@.skipped_notifications.contains(method) <==> exists|i: int|
            0 <= i < div.skipped_notifications@.len() && (
            #[trigger] div.skipped_notifications@[i])@ == method,
        div@.allowed_paths(method).contains(path) <==> exists|i: int, j: int|
            0 <= i < div.field_path_divergences@.len() && div.field_path_divergences@[i].0@
                == method && 0 <= j < div.field_path_divergences@[i].1@.len() && (
            #[trigger] div.field_path_divergences@[i].1@[j])@ == path,
{
    let (a, b) = (div.skipped_methods@, div.skipped_notifications@);
    let table = div.field_path_divergences@;
    if div@.skipped_methods.contains(method) {
        let i = div@.skipped_methods.index_of(method);
        assert(a[i]@ == method);
    }
    if exists|i: int| 0 <= i < a.len() && (#[trigger] a[i])@ == method {
        let i = choose|i: int| 0 <= i < a.len() && (#[trigger] a[i])@ == method;
        assert(div@.skipped_methods[i] == method);
    }
    if div@.skipped_notifications.contains(method) {
        let i = div@.skipped_notifications.index_of(method);
        assert(b[i]@ == method);
    }
    if exists|i: int| 0 <= i < b.len() && (#[trigger] b[i])@ == method {
        let i = choose|i: int| 0 <= i < b.len() && (#[trigger] b[i])@ == method;
        assert(div@.skipped_notifications[i] == method);
    }
    if div@.allowed_paths(method).contains(path) {
        let i = choose|i: int|
            0 <= i < div@.field_paths.len() && (#[trigger] div@.field_paths[i]).0 == method
                && div@.field_paths[i].1.contains(path);
        let j = div@.field_paths[i].1.index_of(path);
        assert(table[i].1@[j]@ == path);
    }
    if exists|i: int, j: int|
        0 <= i < table.len() && table[i].0@ == method && 0 <= j < table[i].1@.len() && (
        #[trigger] table[i].1@[j])@ == path {
        let (i, j) = choose|i: int, j: int|
            0 <= i < table.len() && table[i].0@ == method && 0 <= j < table[i].1@.len() && (
            #[trigger] table[i].1@[j])@ == path;
        assert(div@.field_paths[i].0 == method);
        assert(div@.field_paths[i].1[j] == path);
    }
}

/// A bridge may differ in its own gaps and in those of every bridge, and in nothing else; the key
/// paths that are not compared are the same for all bridges.
pub proof fn law_bridge_gaps_are_own_or_common(target: TargetId, other: TargetId, method: Seq<char>)
    requires
        target != TargetId::Codex,
        other != TargetId::Codex,
    ensures
        divergence::known_divergence(target).skipped_methods.contains(method)
            <==> divergence::own_methods(target).contains(method)
            || divergence::shape_divergent_responses().contains(method),
        divergence::known_divergence(target).skipped_notifications.contains(method)
            <==> divergence::own_notifications(target).contains(method)
            || divergence::shape_divergent_notifications().contains(method),
        divergence::known_divergence(target).field_paths == divergence::known_divergence(
            other,
        ).field_paths,
        divergence::known_divergence(target).field_paths.len() > 0,
{
    diff_laws::lemma_add_contains(
        divergence::own_methods(target),
        divergence::shape_divergent_responses(),
        method,
    );
    diff_laws::lemma_add_contains(
        divergence::own_notifications(target),
        divergence::shape_divergent_notifications(),
        method,
    );
}

/// A route says which id it is for and which frame it carries.
pub proof fn law_dispatch_says_its_route(dispatch: Dispatch)
    ensures
        match dispatch {
            Dispatch::Deliver { id, frame } => dispatch@ == (Route::Deliver {
                id: id@,
                frame: json::json_of(frame),
            }),
            Dispatch::Unknown { id } => dispatch@ == (Route::Unknown { id: id@ }),
            Dispatch::Notify { forward: Some(frame) } => dispatch@ == (Route::Notify {
                forward: Some(json::json_of(frame)),
            }),
            Dispatch::Notify { forward: None } => dispatch@ == (Route::Notify { forward: None }),
        },
{
}

/// An event says what happened, with the reason or the frame that it carries.
pub proof fn law_event_says_what_happened(event: Event)
    ensures
        match event {
            Event::Ack { ok, error: Some(error) } => event@ == (EventModel::Ack {
                ok,
                error: Some(error@),
            }),
            Event::Ack { ok, error: None } => event@ == (EventModel::Ack { ok, error: None }),
            Event::Frame(frame) => event@ == EventModel::Frame(json::json_of(frame)),
            Event::ReadFailed(reason) => event@ == EventModel::ReadFailed(reason@),
            Event::Expired => event@ == EventModel::Expired,
        },
{
}

/// An action says each of its effects, in order, and what is waited for.
pub proof fn law_action_says_its_effects(action: Action, i: int)
    requires
        0 <= i < action.effects@.len(),
    ensures
        action@.effects.len() == action.effects@.len(),
        match action.effects@[i] {
            Effect::Note(line) => action@.effects[i] == EffectModel::Note(line@),
            Effect::Inbound(line) => action@.effects[i] == EffectModel::Inbound(line@),
            Effect::Send { shown, value } => action@.effects[i] == (EffectModel::Send {
                shown: shown@,
                value: json::json_of(value),
            }),
        },
{
}

/// An action says what is waited for, and for how long.
pub proof fn law_action_says_what_is_next(action: Action)
    ensures
        match action.next {
            Next::ReadWithin(secs) => action@.next == NextModel::ReadWithin(secs),
            Next::BeginResponse(secs) => action@.next == NextModel::BeginResponse(secs),
            Next::BeginLinger(secs) => action@.next == NextModel::BeginLinger(secs),
            Next::ReadOn => action@.next == NextModel::ReadOn,
            Next::Finish => action@.next == NextModel::Finish,
            Next::Fail(message) => action@.next == NextModel::Fail(message@),
            Next::Ignored => action@.next == NextModel::Ignored,
        },
{
}

/// What is said of a malformed line ends with the whole line, and only a malformed line has one.
pub proof fn law_malformed_line_is_quoted(error: LineError)
    ensures
        match error {
            LineError::Malformed { line, .. } => {
                &&& error.says().len() == 24 + line@.len()
                &&& error.says().take(24) == "decoding JSON-RPC line: "@
                &&& error.says().skip(24) == line@
            },
            LineError::Closed => error.says() == "stream closed by peer"@,
            LineError::Empty => error.says() == "empty JSON line"@,
        },
{
    reveal_strlit("decoding JSON-RPC line: ");
    if let LineError::Malformed { line, .. } = error {
        assert(error.says().take(24) =~= "decoding JSON-RPC line: "@);
        assert(error.says().skip(24) =~= line@);
    }
}

} // verus!
