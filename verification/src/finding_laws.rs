//! What a comparison reports, told by the recorded frames and the allowlists alone.
use vstd::prelude::*;

use crate::diff;
use crate::diff::FindingModel;
use crate::diff_laws;
use crate::divergence::Divergence;
use crate::text;
use crate::transcript::{FrameKind, FrameModel};

verus! {

/// Some frame of `kind` of `method` was recorded in `step`.
pub open spec fn recorded(
    frames: Seq<FrameModel>,
    step: Seq<char>,
    method: Seq<char>,
    kind: FrameKind,
) -> bool {
    exists|i: int|
        0 <= i < frames.len() && (#[trigger] frames[i]).step == step && frames[i].method == method
            && frames[i].kind == kind
}

/// Some response to `method` that is no error was recorded in `step`.
pub open spec fn success(frames: Seq<FrameModel>, step: Seq<char>, method: Seq<char>) -> bool {
    exists|i: int|
        0 <= i < frames.len() && (#[trigger] frames[i]).step == step && frames[i].method == method
            && frames[i].kind == FrameKind::Response && !frames[i].check.error_response
}

/// Some response to `method` that has an error code and an error message was recorded in `step`.
pub open spec fn error(frames: Seq<FrameModel>, step: Seq<char>, method: Seq<char>) -> bool {
    exists|i: int|
        0 <= i < frames.len() && (#[trigger] frames[i]).step == step && frames[i].method == method
            && frames[i].kind == FrameKind::Response && frames[i].check.error_code is Some
            && frames[i].check.error_message is Some
}

/// Some frame of `kind` of `method` that was recorded in `step` populates the key `path`.
pub open spec fn populates(
    frames: Seq<FrameModel>,
    step: Seq<char>,
    method: Seq<char>,
    kind: FrameKind,
    path: Seq<char>,
) -> bool {
    exists|i: int|
        0 <= i < frames.len() && (#[trigger] frames[i]).step == step && frames[i].method == method
            && frames[i].kind == kind && frames[i].check.fingerprint.contains(path)
}

/// Some entry for `method` in the table of key paths lists `path`.
pub open spec fn tolerated(div: Divergence, method: Seq<char>, path: Seq<char>) -> bool {
    exists|i: int|
        0 <= i < div.field_paths.len() && (#[trigger] div.field_paths[i]).0 == method
            && div.field_paths[i].1.contains(path)
}

proof fn lemma_recorded(
    frames: Seq<FrameModel>,
    step: Seq<char>,
    method: Seq<char>,
    kind: FrameKind,
)
    ensures
        diff::sent(diff::step_frames(frames, step), kind).contains(method) <==> recorded(
            frames,
            step,
            method,
            kind,
        ),
{
    let own = diff::step_frames(frames, step);
    if diff::sent(own, kind).contains(method) {
        let i = choose|i: int|
            0 <= i < own.len() && (#[trigger] own[i]).kind == kind && own[i].method == method;
        assert(own.contains(own[i]));
        diff_laws::law_all_frames_of_a_step_count(frames, step, own[i]);
        assert(frames[frames.index_of(own[i])] == own[i]);
    }
    if recorded(frames, step, method, kind) {
        let i = choose|i: int|
            0 <= i < frames.len() && (#[trigger] frames[i]).step == step && frames[i].method
                == method && frames[i].kind == kind;
        assert(frames.contains(frames[i]));
        diff_laws::law_all_frames_of_a_step_count(frames, step, frames[i]);
        assert(own[own.index_of(frames[i])] == frames[i]);
    }
}

proof fn lemma_success(frames: Seq<FrameModel>, step: Seq<char>, method: Seq<char>)
    ensures
        diff::succeeding(diff::step_frames(frames, step)).contains(method) <==> success(
            frames,
            step,
            method,
        ),
{
    let own = diff::step_frames(frames, step);
    if diff::succeeding(own).contains(method) {
        let i = choose|i: int|
            0 <= i < own.len() && (#[trigger] own[i]).kind == FrameKind::Response && own[i].method
                == method && !own[i].check.error_response;
        assert(own.contains(own[i]));
        diff_laws::law_all_frames_of_a_step_count(frames, step, own[i]);
        assert(frames[frames.index_of(own[i])] == own[i]);
    }
    if success(frames, step, method) {
        let i = choose|i: int|
            0 <= i < frames.len() && (#[trigger] frames[i]).step == step && frames[i].method
                == method && frames[i].kind == FrameKind::Response
                && !frames[i].check.error_response;
        assert(frames.contains(frames[i]));
        diff_laws::law_all_frames_of_a_step_count(frames, step, frames[i]);
        assert(own[own.index_of(frames[i])] == frames[i]);
    }
}

proof fn lemma_error(frames: Seq<FrameModel>, step: Seq<char>, method: Seq<char>)
    ensures
        diff::failing(diff::step_frames(frames, step)).contains(method) <==> error(
            frames,
            step,
            method,
        ),
{
    let own = diff::step_frames(frames, step);
    if diff::failing(own).contains(method) {
        let i = choose|i: int|
            0 <= i < own.len() && (#[trigger] own[i]).kind == FrameKind::Response && own[i].method
                == method && own[i].check.error_code is Some && own[i].check.error_message is Some;
        assert(own.contains(own[i]));
        diff_laws::law_all_frames_of_a_step_count(frames, step, own[i]);
        assert(frames[frames.index_of(own[i])] == own[i]);
    }
    if error(frames, step, method) {
        let i = choose|i: int|
            0 <= i < frames.len() && (#[trigger] frames[i]).step == step && frames[i].method
                == method && frames[i].kind == FrameKind::Response && frames[i].check.error_code
                is Some && frames[i].check.error_message is Some;
        assert(frames.contains(frames[i]));
        diff_laws::law_all_frames_of_a_step_count(frames, step, frames[i]);
        assert(own[own.index_of(frames[i])] == frames[i]);
    }
}

proof fn lemma_populates(
    frames: Seq<FrameModel>,
    step: Seq<char>,
    method: Seq<char>,
    kind: FrameKind,
    path: Seq<char>,
)
    ensures
        diff::populated_keys(diff::step_frames(frames, step), method, kind).contains(path)
            <==> populates(frames, step, method, kind, path),
{
    let own = diff::step_frames(frames, step);
    if diff::populated_keys(own, method, kind).contains(path) {
        let i = choose|i: int|
            0 <= i < own.len() && (#[trigger] own[i]).kind == kind && own[i].method == method
                && own[i].check.fingerprint.contains(path);
        assert(own.contains(own[i]));
        diff_laws::law_all_frames_of_a_step_count(frames, step, own[i]);
        assert(frames[frames.index_of(own[i])] == own[i]);
    }
    if populates(frames, step, method, kind, path) {
        let i = choose|i: int|
            0 <= i < frames.len() && (#[trigger] frames[i]).step == step && frames[i].method
                == method && frames[i].kind == kind && frames[i].check.fingerprint.contains(path);
        assert(frames.contains(frames[i]));
        diff_laws::law_all_frames_of_a_step_count(frames, step, frames[i]);
        assert(own[own.index_of(frames[i])] == frames[i]);
    }
}

/// A notification is missing exactly where it was recorded for the reference in a named step, not
/// for the target there, and is not listed.
pub proof fn law_notification_is_missing(
    reference: Seq<FrameModel>,
    target: Seq<FrameModel>,
    div: Divergence,
    step: Seq<char>,
    method: Seq<char>,
)
    ensures
        diff::compare_findings(reference, target, div).contains(
            FindingModel::MissingNotification { step, method },
        ) <==> {
            &&& step.len() > 0
            &&& recorded(reference, step, method, FrameKind::Notification)
            &&& !recorded(target, step, method, FrameKind::Notification)
            &&& !div.skipped_notifications.contains(method)
        },
{
    diff_laws::law_missing_notifications(reference, target, div, step, method);
    lemma_recorded(reference, step, method, FrameKind::Notification);
    lemma_recorded(target, step, method, FrameKind::Notification);
}

/// A notification is extra exactly where it was recorded for the target in a named step, not for
/// the reference there, and is not listed.
pub proof fn law_notification_is_extra(
    reference: Seq<FrameModel>,
    target: Seq<FrameModel>,
    div: Divergence,
    step: Seq<char>,
    method: Seq<char>,
)
    ensures
        diff::compare_findings(reference, target, div).contains(
            FindingModel::ExtraNotification { step, method },
        ) <==> {
            &&& step.len() > 0
            &&& recorded(target, step, method, FrameKind::Notification)
            &&& !recorded(reference, step, method, FrameKind::Notification)
            &&& !div.skipped_notifications.contains(method)
        },
{
    diff_laws::law_extra_notifications(reference, target, div, step, method);
    lemma_recorded(reference, step, method, FrameKind::Notification);
    lemma_recorded(target, step, method, FrameKind::Notification);
}

/// A response is missing exactly where the method succeeded on the reference in a named step, the
/// target answered it there neither with success nor with a full error, and it is not listed.
pub proof fn law_response_is_missing(
    reference: Seq<FrameModel>,
    target: Seq<FrameModel>,
    div: Divergence,
    step: Seq<char>,
    method: Seq<char>,
)
    ensures
        diff::compare_findings(reference, target, div).contains(
            FindingModel::MissingResponse { step, method },
        ) <==> {
            &&& step.len() > 0
            &&& success(reference, step, method)
            &&& !success(target, step, method)
            &&& !error(target, step, method)
            &&& !div.skipped_methods.contains(method)
        },
{
    diff_laws::law_missing_responses(reference, target, div, step, method);
    lemma_success(reference, step, method);
    lemma_success(target, step, method);
    lemma_error(target, step, method);
}

/// An error is unexpected exactly where the target recorded it, its method is not listed, and the
/// reference recorded a success of the method in any step.
pub proof fn law_error_is_unexpected(
    reference: Seq<FrameModel>,
    target: Seq<FrameModel>,
    div: Divergence,
    step: Seq<char>,
    method: Seq<char>,
    code: i64,
    message: Seq<char>,
)
    ensures
        diff::compare_findings(reference, target, div).contains(
            FindingModel::UnexpectedError { step, method, code, message },
        ) <==> {
            &&& !div.skipped_methods.contains(method)
            &&& exists|i: int|
                0 <= i < reference.len() && (#[trigger] reference[i]).kind == FrameKind::Response
                    && reference[i].method == method && !reference[i].check.error_response
            &&& exists|i: int|
                0 <= i < target.len() && (#[trigger] target[i]).step == step && target[i].method
                    == method && target[i].kind == FrameKind::Response && target[i].check.error_code
                    == Some(code) && target[i].check.error_message == Some(message)
        },
{
    diff_laws::law_unexpected_errors(reference, target, div, step, method, code, message);
}

/// Without a reference every error is unexpected whose method is not listed.
pub proof fn law_error_is_unexpected_without_reference(
    target: Seq<FrameModel>,
    skipped: Seq<Seq<char>>,
    step: Seq<char>,
    method: Seq<char>,
    code: i64,
    message: Seq<char>,
)
    ensures
        diff::checked_findings(target, skipped, None).contains(
            FindingModel::UnexpectedError { step, method, code, message },
        ) <==> {
            &&& !skipped.contains(method)
            &&& exists|i: int|
                0 <= i < target.len() && (#[trigger] target[i]).step == step && target[i].method
                    == method && target[i].kind == FrameKind::Response && target[i].check.error_code
                    == Some(code) && target[i].check.error_message == Some(message)
        },
{
    let finding = FindingModel::UnexpectedError { step, method, code, message };
    law_errors_in_order(target, skipped, None);
    let found = diff::checked_findings(target, skipped, None);
    let is_error = |f: FindingModel| f is UnexpectedError;
    let fails = failing_frames(skipped, None);
    let say = say_error();
    let frames = target.filter(fails);
    if found.contains(finding) {
        found.lemma_filter_contains(is_error, found.index_of(finding));
        let k = frames.map_values(say).index_of(finding);
        frames_kept(target, fails, k);
        let i = target.index_of(frames[k]);
        assert(target[i] == frames[k]);
    }
    if !skipped.contains(method) && exists|i: int|
        0 <= i < target.len() && (#[trigger] target[i]).step == step && target[i].method == method
            && target[i].kind == FrameKind::Response && target[i].check.error_code == Some(code)
            && target[i].check.error_message == Some(message) {
        let i = choose|i: int|
            0 <= i < target.len() && (#[trigger] target[i]).step == step && target[i].method
                == method && target[i].kind == FrameKind::Response && target[i].check.error_code
                == Some(code) && target[i].check.error_message == Some(message);
        assert(fails(target[i]));
        target.lemma_filter_contains(fails, i);
        let k = frames.index_of(target[i]);
        assert(frames.map_values(say)[k] == finding);
        assert(found.filter(is_error).contains(finding));
        found.lemma_filter_contains_rev(is_error, finding);
    }
}

proof fn frames_kept(s: Seq<FrameModel>, p: spec_fn(FrameModel) -> bool, k: int)
    requires
        0 <= k < s.filter(p).len(),
    ensures
        p(s.filter(p)[k]),
        s.contains(s.filter(p)[k]),
{
    s.lemma_filter_pred(p, k);
    assert(s.filter(p).contains(s.filter(p)[k]));
    s.lemma_filter_contains_rev(p, s.filter(p)[k]);
}

/// Differences of keys, told by the frames and the lists. Both sides recorded frames of the method
/// and kind in a named step; the method is not on the list for that kind (responses go by the
/// list of methods, notifications by the list of notifications); `missing` are exactly the keys
/// that only the reference's frames populate, `extra` those that only the target's do, without the
/// paths that the table lists for the method; and there is at least one such key.
pub proof fn law_keys_differ(
    reference: Seq<FrameModel>,
    target: Seq<FrameModel>,
    div: Divergence,
    step: Seq<char>,
    method: Seq<char>,
    kind: FrameKind,
    missing: Set<Seq<char>>,
    extra: Set<Seq<char>>,
)
    ensures
        diff::compare_findings(reference, target, div).contains(
            FindingModel::KeyDifference { step, method, kind, missing, extra },
        ) <==> {
            &&& step.len() > 0
            &&& recorded(reference, step, method, kind)
            &&& recorded(target, step, method, kind)
            &&& kind == FrameKind::Response ==> !div.skipped_methods.contains(method)
            &&& kind == FrameKind::Notification ==> !div.skipped_notifications.contains(method)
            &&& forall|p: Seq<char>| #[trigger]
                missing.contains(p) <==> populates(reference, step, method, kind, p) && !populates(
                    target,
                    step,
                    method,
                    kind,
                    p,
                ) && !tolerated(div, method, p)
            &&& forall|p: Seq<char>| #[trigger]
                extra.contains(p) <==> populates(target, step, method, kind, p) && !populates(
                    reference,
                    step,
                    method,
                    kind,
                    p,
                ) && !tolerated(div, method, p)
            &&& exists|p: Seq<char>| #![auto] missing.contains(p) || extra.contains(p)
        },
{
    diff_laws::law_key_differences(
        reference,
        target,
        div,
        step,
        method,
        kind,
        missing,
        extra,
    );
    lemma_recorded(reference, step, method, kind);
    lemma_recorded(target, step, method, kind);
    let r = diff::populated_keys(diff::step_frames(reference, step), method, kind);
    let t = diff::populated_keys(diff::step_frames(target, step), method, kind);
    let allowed = div.allowed_paths(method);
    assert forall|p: Seq<char>|
        #![trigger r.contains(p)]
        #![trigger t.contains(p)]
        #![trigger allowed.contains(p)]
        (r.contains(p) <==> populates(reference, step, method, kind, p)) && (t.contains(p)
            <==> populates(target, step, method, kind, p)) && (allowed.contains(p) <==> tolerated(
            div,
            method,
            p,
        )) by {
        lemma_populates(reference, step, method, kind, p);
        lemma_populates(target, step, method, kind, p);
    }
    let lost = r.difference(t).difference(allowed);
    let added = t.difference(r).difference(allowed);
    if forall|p: Seq<char>| #[trigger]
        missing.contains(p) <==> populates(reference, step, method, kind, p) && !populates(
            target,
            step,
            method,
            kind,
            p,
        ) && !tolerated(div, method, p) {
        assert forall|p: Seq<char>| missing.contains(p) <==> lost.contains(p) by {
            lemma_populates(reference, step, method, kind, p);
            lemma_populates(target, step, method, kind, p);
            assert(r.contains(p) || !r.contains(p));
        }
        assert(missing =~= lost);
    }
    if forall|p: Seq<char>| #[trigger]
        extra.contains(p) <==> populates(target, step, method, kind, p) && !populates(
            reference,
            step,
            method,
            kind,
            p,
        ) && !tolerated(div, method, p) {
        assert forall|p: Seq<char>| extra.contains(p) <==> added.contains(p) by {
            lemma_populates(reference, step, method, kind, p);
            lemma_populates(target, step, method, kind, p);
            assert(r.contains(p) || !r.contains(p));
        }
        assert(extra =~= added);
    }
    if missing != Set::<Seq<char>>::empty() {
        if forall|p: Seq<char>| !missing.contains(p) {
            assert(missing =~= Set::empty());
        }
    }
    if extra != Set::<Seq<char>>::empty() {
        if forall|p: Seq<char>| !extra.contains(p) {
            assert(extra =~= Set::empty());
        }
    }
}

/// A listed notification's keys are never reported, nor are those of the responses to a listed
/// method, whatever was recorded.
pub proof fn law_listed_shapes_may_differ(
    reference: Seq<FrameModel>,
    target: Seq<FrameModel>,
    div: Divergence,
    step: Seq<char>,
    method: Seq<char>,
    missing: Set<Seq<char>>,
    extra: Set<Seq<char>>,
)
    ensures
        div.skipped_notifications.contains(method) ==> !diff::compare_findings(
            reference,
            target,
            div,
        ).contains(
            FindingModel::KeyDifference {
                step,
                method,
                kind: FrameKind::Notification,
                missing,
                extra,
            },
        ),
        div.skipped_methods.contains(method) ==> !diff::compare_findings(
            reference,
            target,
            div,
        ).contains(
            FindingModel::KeyDifference {
                step,
                method,
                kind: FrameKind::Response,
                missing,
                extra,
            },
        ),
{
    let (p, n) = (FrameKind::Response, FrameKind::Notification);
    law_keys_differ(reference, target, div, step, method, n, missing, extra);
    law_keys_differ(reference, target, div, step, method, p, missing, extra);
}

/// Frames are checked one by one: what a list of frames gives rise to is what its parts do, in
/// order.
pub proof fn law_checks_are_separate(
    a: Seq<FrameModel>,
    b: Seq<FrameModel>,
    skipped: Seq<Seq<char>>,
    reference: Option<Seq<FrameModel>>,
)
    ensures
        diff::checked_findings(a + b, skipped, reference) == diff::checked_findings(
            a,
            skipped,
            reference,
        ) + diff::checked_findings(b, skipped, reference),
    decreases b.len(),
{
    let f = |frame: FrameModel| diff::frame_findings(frame, skipped, reference);
    if b.len() == 0 {
        assert(a + b =~= a);
        assert(b.flat_map(f) =~= Seq::<FindingModel>::empty());
    } else {
        let rest = b.drop_last();
        law_checks_are_separate(a, rest, skipped, reference);
        lemma_flat_map_last(b, f);
        lemma_flat_map_last(a + b, f);
        assert((a + b).drop_last() =~= a + rest);
        assert((a + b).last() == b.last());
    }
    assert((a + b).flat_map(f) =~= a.flat_map(f) + b.flat_map(f));
}

proof fn lemma_flat_map_last<A, B>(s: Seq<A>, f: spec_fn(A) -> Seq<B>)
    requires
        s.len() > 0,
    ensures
        s.flat_map(f) == s.drop_last().flat_map(f) + f(s.last()),
{
    let n = s.len() - 1;
    s.lemma_flat_map_take_append(f, n);
    assert(s.take(n) =~= s.drop_last());
    assert(s.take(n + 1) =~= s);
}

/// The schema errors of a check are those of the frames that have one, each once, in order.
pub proof fn law_schema_errors_in_order(
    frames: Seq<FrameModel>,
    skipped: Seq<Seq<char>>,
    reference: Option<Seq<FrameModel>>,
)
    ensures
        diff::checked_findings(frames, skipped, reference).filter(
            |f: FindingModel| f is SchemaError,
        ) == frames.filter(|f: FrameModel| f.check.deserialize_error is Some).map_values(
            |f: FrameModel|
                FindingModel::SchemaError {
                    step: f.step,
                    method: f.method,
                    kind: f.kind,
                    message: f.check.deserialize_error->0,
                },
        ),
    decreases frames.len(),
{
    reveal(Seq::filter);
    let f = |frame: FrameModel| diff::frame_findings(frame, skipped, reference);
    let p = |f: FindingModel| f is SchemaError;
    let q = |f: FrameModel| f.check.deserialize_error is Some;
    let say = |f: FrameModel|
        FindingModel::SchemaError {
            step: f.step,
            method: f.method,
            kind: f.kind,
            message: f.check.deserialize_error->0,
        };
    if frames.len() == 0 {
        assert(frames.flat_map(f) =~= Seq::<FindingModel>::empty());
        assert(frames.filter(q).map_values(say) =~= Seq::<FindingModel>::empty());
    } else {
        let (rest, last) = (frames.drop_last(), frames.last());
        law_schema_errors_in_order(rest, skipped, reference);
        lemma_flat_map_last(frames, f);
        Seq::filter_distributes_over_add(rest.flat_map(f), f(last), p);
        lemma_short_filter(f(last), p);
        let own = if q(last) { seq![say(last)] } else { seq![] };
        assert(f(last).filter(p) =~= own);
        assert(frames.filter(q).map_values(say) =~= rest.filter(q).map_values(say) + own);
    }
}

/// The filter of a list of at most three entries.
proof fn lemma_short_filter(s: Seq<FindingModel>, p: spec_fn(FindingModel) -> bool)
    requires
        s.len() <= 3,
    ensures
        s.filter(p) == (if s.len() > 0 && p(s[0]) { seq![s[0]] } else { seq![] }) + (if s.len() > 1
            && p(s[1]) { seq![s[1]] } else { seq![] }) + (if s.len() > 2 && p(s[2]) { seq![s[2]] } else {
            seq![]
        }),
{
    reveal_with_fuel(Seq::filter, 4);
    if s.len() > 0 {
        let a = s.drop_last();
        if a.len() > 0 {
            assert(a.last() == s[s.len() - 2]);
            let b = a.drop_last();
            if b.len() > 0 {
                assert(b.last() == s[s.len() - 3]);
                assert(b.drop_last().len() == 0);
            }
        }
    }
    assert(s.filter(p) =~= (if s.len() > 0 && p(s[0]) { seq![s[0]] } else { seq![] }) + (
    if s.len() > 1 && p(s[1]) { seq![s[1]] } else { seq![] }) + (if s.len() > 2 && p(s[2]) {
        seq![s[2]]
    } else {
        seq![]
    }));
}

/// The violations of the upstream schema that a check reports are those of the frames that have
/// one and are no error responses, each once, in order.
pub proof fn law_upstream_errors_in_order(
    frames: Seq<FrameModel>,
    skipped: Seq<Seq<char>>,
    reference: Option<Seq<FrameModel>>,
)
    ensures
        diff::checked_findings(frames, skipped, reference).filter(
            |f: FindingModel| f is UpstreamSchemaError,
        ) == frames.filter(
            |f: FrameModel| f.check.upstream_error is Some && !f.check.error_response,
        ).map_values(
            |f: FrameModel|
                FindingModel::UpstreamSchemaError {
                    step: f.step,
                    method: f.method,
                    kind: f.kind,
                    message: f.check.upstream_error->0,
                },
        ),
    decreases frames.len(),
{
    reveal(Seq::filter);
    let f = |frame: FrameModel| diff::frame_findings(frame, skipped, reference);
    let p = |f: FindingModel| f is UpstreamSchemaError;
    let q = |f: FrameModel| f.check.upstream_error is Some && !f.check.error_response;
    let say = |f: FrameModel|
        FindingModel::UpstreamSchemaError {
            step: f.step,
            method: f.method,
            kind: f.kind,
            message: f.check.upstream_error->0,
        };
    if frames.len() == 0 {
        assert(frames.flat_map(f) =~= Seq::<FindingModel>::empty());
        assert(frames.filter(q).map_values(say) =~= Seq::<FindingModel>::empty());
    } else {
        let (rest, last) = (frames.drop_last(), frames.last());
        law_upstream_errors_in_order(rest, skipped, reference);
        lemma_flat_map_last(frames, f);
        Seq::filter_distributes_over_add(rest.flat_map(f), f(last), p);
        lemma_short_filter(f(last), p);
        let own = if q(last) { seq![say(last)] } else { seq![] };
        assert(f(last).filter(p) =~= own);
        assert(frames.filter(q).map_values(say) =~= rest.filter(q).map_values(say) + own);
    }
}

/// Whether a frame is an error response that counts: it has a code and a message, its method is
/// not listed, and where there is a reference, that recorded a success of the method.
pub open spec fn failing_frames(
    skipped: Seq<Seq<char>>,
    reference: Option<Seq<FrameModel>>,
) -> spec_fn(FrameModel) -> bool {
    |f: FrameModel|
        {
            &&& f.kind == FrameKind::Response
            &&& f.check.error_code is Some
            &&& f.check.error_message is Some
            &&& !skipped.contains(f.method)
            &&& reference is Some ==> exists|i: int|
                0 <= i < reference->0.len() && (#[trigger] reference->0[i]).kind
                    == FrameKind::Response && reference->0[i].method == f.method
                    && !reference->0[i].check.error_response
        }
}

/// How an error response is reported.
pub open spec fn say_error() -> spec_fn(FrameModel) -> FindingModel {
    |f: FrameModel|
        FindingModel::UnexpectedError {
            step: f.step,
            method: f.method,
            code: f.check.error_code->0,
            message: f.check.error_message->0,
        }
}

/// The unexpected errors of a check are those of the error responses that count, each once, in
/// order.
pub proof fn law_errors_in_order(
    frames: Seq<FrameModel>,
    skipped: Seq<Seq<char>>,
    reference: Option<Seq<FrameModel>>,
)
    ensures
        diff::checked_findings(frames, skipped, reference).filter(
            |f: FindingModel| f is UnexpectedError,
        ) == frames.filter(failing_frames(skipped, reference)).map_values(say_error()),
    decreases frames.len(),
{
    reveal(Seq::filter);
    let f = |frame: FrameModel| diff::frame_findings(frame, skipped, reference);
    let p = |f: FindingModel| f is UnexpectedError;
    let q = failing_frames(skipped, reference);
    let say = say_error();
    if frames.len() == 0 {
        assert(frames.flat_map(f) =~= Seq::<FindingModel>::empty());
        assert(frames.filter(q).map_values(say) =~= Seq::<FindingModel>::empty());
    } else {
        let (rest, last) = (frames.drop_last(), frames.last());
        law_errors_in_order(rest, skipped, reference);
        lemma_flat_map_last(frames, f);
        Seq::filter_distributes_over_add(rest.flat_map(f), f(last), p);
        lemma_short_filter(f(last), p);
        let own = if q(last) { seq![say(last)] } else { seq![] };
        assert(f(last).filter(p) =~= own);
        assert(frames.filter(q).map_values(say) =~= rest.filter(q).map_values(say) + own);
    }
}

/// A check reports nothing but schema errors, violations of the upstream schema and unexpected
/// errors.
pub proof fn law_checks_find_nothing_else(
    frames: Seq<FrameModel>,
    skipped: Seq<Seq<char>>,
    reference: Option<Seq<FrameModel>>,
    i: int,
)
    requires
        0 <= i < diff::checked_findings(frames, skipped, reference).len(),
    ensures
        ({
            let f = diff::checked_findings(frames, skipped, reference)[i];
            f is SchemaError || f is UpstreamSchemaError || f is UnexpectedError
        }),
    decreases frames.len(),
{
    let f = |frame: FrameModel| diff::frame_findings(frame, skipped, reference);
    if frames.len() == 0 {
        assert(frames.flat_map(f) =~= Seq::<FindingModel>::empty());
    } else {
        let (rest, last) = (frames.drop_last(), frames.last());
        lemma_flat_map_last(frames, f);
        if i < rest.flat_map(f).len() {
            law_checks_find_nothing_else(rest, skipped, reference, i);
        }
    }
}

/// The place of a finding among those of a step.
pub open spec fn layer(finding: FindingModel) -> int {
    match finding {
        FindingModel::MissingResponse { .. } => 1,
        FindingModel::MissingNotification { .. } => 2,
        FindingModel::ExtraNotification { .. } => 3,
        FindingModel::KeyDifference { .. } => 4,
        _ => 0,
    }
}

/// The step of a finding that a comparison of steps reports.
pub open spec fn step_of(finding: FindingModel) -> Seq<char> {
    match finding {
        FindingModel::MissingResponse { step, .. } => step,
        FindingModel::MissingNotification { step, .. } => step,
        FindingModel::ExtraNotification { step, .. } => step,
        FindingModel::KeyDifference { step, .. } => step,
        _ => seq![],
    }
}

/// The method of a finding that a comparison of steps reports.
pub open spec fn method_of(finding: FindingModel) -> Seq<char> {
    match finding {
        FindingModel::MissingResponse { method, .. } => method,
        FindingModel::MissingNotification { method, .. } => method,
        FindingModel::ExtraNotification { method, .. } => method,
        FindingModel::KeyDifference { method, .. } => method,
        _ => seq![],
    }
}

/// Whether one finding stands before another in a report: steps in ascending order, within a step
/// missing responses, missing notifications, extra notifications and differences of keys, each by
/// method in ascending order, and of one method responses before notifications.
pub open spec fn precedes(a: FindingModel, b: FindingModel) -> bool {
    ||| text::before(step_of(a), step_of(b))
    ||| {
        &&& step_of(a) == step_of(b)
        &&& {
            ||| layer(a) < layer(b)
            ||| {
                &&& layer(a) == layer(b)
                &&& {
                    ||| text::before(method_of(a), method_of(b))
                    ||| {
                        &&& method_of(a) == method_of(b)
                        &&& a is KeyDifference
                        &&& a->KeyDifference_kind == FrameKind::Response
                        &&& b->KeyDifference_kind == FrameKind::Notification
                    }
                }
            }
        }
    }
}

/// Whether every finding of a list stands before those that follow it.
pub open spec fn ordered(findings: Seq<FindingModel>) -> bool {
    forall|i: int, j: int|
        0 <= i < j < findings.len() ==> precedes(#[trigger] findings[i], #[trigger] findings[j])
}

proof fn lemma_ordered_add(a: Seq<FindingModel>, b: Seq<FindingModel>)
    requires
        ordered(a),
        ordered(b),
        forall|i: int, j: int|
            0 <= i < a.len() && 0 <= j < b.len() ==> precedes(#[trigger] a[i], #[trigger] b[j]),
    ensures
        ordered(a + b),
{
    let all = a + b;
    assert forall|i: int, j: int| 0 <= i < j < all.len() implies precedes(
        #[trigger] all[i],
        #[trigger] all[j],
    ) by {
        if j < a.len() {
            assert(precedes(a[i], a[j]));
        } else if i < a.len() {
            assert(precedes(a[i], b[j - a.len()]));
        } else {
            assert(precedes(b[i - a.len()], b[j - a.len()]));
        }
    }
}

/// Every entry of a concatenation comes from one of its parts.
proof fn lemma_flat_map_from<A, B>(s: Seq<A>, f: spec_fn(A) -> Seq<B>, k: int) -> (i: int)
    requires
        0 <= k < s.flat_map(f).len(),
    ensures
        0 <= i < s.len(),
        f(s[i]).contains(s.flat_map(f)[k]),
    decreases s.len(),
{
    if s.len() == 0 {
        assert(s.flat_map(f) =~= Seq::<B>::empty());
        0
    } else {
        lemma_flat_map_last(s, f);
        let rest = s.drop_last();
        if k < rest.flat_map(f).len() {
            lemma_flat_map_from(rest, f, k)
        } else {
            assert(f(s.last())[k - rest.flat_map(f).len()] == s.flat_map(f)[k]);
            s.len() - 1
        }
    }
}

proof fn lemma_ordered_flat_map(s: Seq<Seq<char>>, f: spec_fn(Seq<char>) -> Seq<FindingModel>)
    requires
        forall|i: int| 0 <= i < s.len() ==> ordered(#[trigger] f(s[i])),
        forall|i: int, j: int, a: FindingModel, b: FindingModel|
            0 <= i < j < s.len() && #[trigger] f(s[i]).contains(a) && #[trigger] f(s[j]).contains(b)
                ==> precedes(a, b),
    ensures
        ordered(s.flat_map(f)),
    decreases s.len(),
{
    if s.len() == 0 {
        assert(s.flat_map(f) =~= Seq::<FindingModel>::empty());
    } else {
        let rest = s.drop_last();
        let n = s.len() - 1;
        assert forall|i: int| 0 <= i < rest.len() implies ordered(#[trigger] f(rest[i])) by {
            assert(rest[i] == s[i]);
        }
        assert forall|i: int, j: int, a: FindingModel, b: FindingModel|
            0 <= i < j < rest.len() && #[trigger] f(rest[i]).contains(a)
                && #[trigger] f(rest[j]).contains(b) implies precedes(a, b) by {
            assert(f(s[i]).contains(a) && f(s[j]).contains(b));
        }
        lemma_ordered_flat_map(rest, f);
        lemma_flat_map_last(s, f);
        let (x, y) = (rest.flat_map(f), f(s[n]));
        assert forall|i: int, j: int| 0 <= i < x.len() && 0 <= j < y.len() implies precedes(
            #[trigger] x[i],
            #[trigger] y[j],
        ) by {
            let k = lemma_flat_map_from(rest, f, i);
            assert(f(s[k]).contains(x[i]));
            assert(f(s[n]).contains(y[j]));
        }
        lemma_ordered_add(x, y);
    }
}

/// The findings about one method's keys.
proof fn lemma_method_ordered(
    step: Seq<char>,
    method: Seq<char>,
    r: Seq<FrameModel>,
    t: Seq<FrameModel>,
    div: Divergence,
)
    ensures
        ordered(diff::method_findings(step, method, r, t, div)),
        forall|f: FindingModel| #[trigger]
            diff::method_findings(step, method, r, t, div).contains(f) ==> f is KeyDifference
                && step_of(f) == step && method_of(f) == method,
{
}

proof fn lemma_map_ordered(
    names: Seq<Seq<char>>,
    f: spec_fn(Seq<char>) -> FindingModel,
    step: Seq<char>,
    at: int,
)
    requires
        text::ascending(names),
        forall|m: Seq<char>|
            step_of(#[trigger] f(m)) == step && layer(f(m)) == at && method_of(f(m)) == m,
    ensures
        ordered(names.map_values(f)),
        forall|i: int|
            0 <= i < names.map_values(f).len() ==> step_of(#[trigger] names.map_values(f)[i])
                == step && layer(names.map_values(f)[i]) == at,
{
    let all = names.map_values(f);
    assert forall|i: int, j: int| 0 <= i < j < all.len() implies precedes(
        #[trigger] all[i],
        #[trigger] all[j],
    ) by {
        assert(all[i] == f(names[i]) && all[j] == f(names[j]));
        assert(text::before(names[i], names[j]));
    }
}

/// The findings of one step stand in order, and are all of that step.
proof fn lemma_step_ordered(
    step: Seq<char>,
    r: Seq<FrameModel>,
    t: Seq<FrameModel>,
    div: Divergence,
)
    ensures
        ordered(diff::step_findings(step, r, t, div)),
        forall|i: int|
            0 <= i < diff::step_findings(step, r, t, div).len() ==> step_of(
                #[trigger] diff::step_findings(step, r, t, div)[i],
            ) == step && layer(diff::step_findings(step, r, t, div)[i]) >= 1,
{
    let (p, n) = (FrameKind::Response, FrameKind::Notification);
    diff_laws::lemma_succeeding_finite(r);
    diff_laws::lemma_sent_finite(r, n);
    diff_laws::lemma_sent_finite(t, n);
    diff_laws::lemma_populated_finite(r, p);
    diff_laws::lemma_populated_finite(r, n);
    diff_laws::lemma_populated_finite(t, p);
    diff_laws::lemma_populated_finite(t, n);
    let silent = diff::succeeding(r).difference(diff::succeeding(t)).difference(
        diff::failing(t),
    ).difference(div.skipped_methods.to_set());
    let lost = diff::sent(r, n).difference(diff::sent(t, n)).difference(
        div.skipped_notifications.to_set(),
    );
    let added = diff::sent(t, n).difference(diff::sent(r, n)).difference(
        div.skipped_notifications.to_set(),
    );
    let compared = diff::populated(r, p).union(diff::populated(r, n)).union(
        diff::populated(t, p),
    ).union(diff::populated(t, n));
    vstd::set_lib::lemma_set_subset_finite(diff::succeeding(r), silent);
    vstd::set_lib::lemma_set_subset_finite(diff::sent(r, n), lost);
    vstd::set_lib::lemma_set_subset_finite(diff::sent(t, n), added);
    text::lemma_sorted_lists(silent);
    text::lemma_sorted_lists(lost);
    text::lemma_sorted_lists(added);
    text::lemma_sorted_lists(compared);
    let f1 = |method: Seq<char>| FindingModel::MissingResponse { step, method };
    let f2 = |method: Seq<char>| FindingModel::MissingNotification { step, method };
    let f3 = |method: Seq<char>| FindingModel::ExtraNotification { step, method };
    let f4 = |method: Seq<char>| diff::method_findings(step, method, r, t, div);
    lemma_map_ordered(diff::unanswered(r, t, div), f1, step, 1);
    lemma_map_ordered(diff::lacking(r, t, div), f2, step, 2);
    lemma_map_ordered(diff::lacking(t, r, div), f3, step, 3);
    let names = diff::compared_methods(r, t);
    assert forall|i: int| 0 <= i < names.len() implies ordered(#[trigger] f4(names[i])) by {
        lemma_method_ordered(step, names[i], r, t, div);
    }
    assert forall|i: int, j: int, a: FindingModel, b: FindingModel|
        0 <= i < j < names.len() && #[trigger] f4(names[i]).contains(a) && #[trigger] f4(
            names[j],
        ).contains(b) implies precedes(a, b) by {
        lemma_method_ordered(step, names[i], r, t, div);
        lemma_method_ordered(step, names[j], r, t, div);
        assert(text::before(names[i], names[j]));
    }
    lemma_ordered_flat_map(names, f4);
    let a = diff::unanswered(r, t, div).map_values(f1);
    let b = diff::lacking(r, t, div).map_values(f2);
    let c = diff::lacking(t, r, div).map_values(f3);
    let d = names.flat_map(f4);
    assert forall|i: int| 0 <= i < d.len() implies step_of(#[trigger] d[i]) == step && layer(d[i])
        == 4 by {
        let k = lemma_flat_map_from(names, f4, i);
        lemma_method_ordered(step, names[k], r, t, div);
        assert(f4(names[k]).contains(d[i]));
    }
    lemma_ordered_add(a, b);
    lemma_ordered_add(a + b, c);
    lemma_ordered_add(a + b + c, d);
    assert(diff::step_findings(step, r, t, div) =~= a + b + c + d);
}

/// After what the frames of the target give rise to by themselves, a report holds what the
/// comparison of steps found: in order, and nothing twice.
pub proof fn law_report_is_ordered(
    reference: Seq<FrameModel>,
    target: Seq<FrameModel>,
    div: Divergence,
)
    ensures
        ({
            let own = diff::checked_findings(target, div.skipped_methods, Some(reference));
            let all = diff::compare_findings(reference, target, div);
            let rest = all.skip(own.len() as int);
            &&& own.is_prefix_of(all)
            &&& ordered(rest)
            &&& rest.no_duplicates()
            &&& forall|i: int|
                0 <= i < rest.len() ==> layer(#[trigger] rest[i]) >= 1 && step_of(rest[i]).len() > 0
        }),
{
    let own = diff::checked_findings(target, div.skipped_methods, Some(reference));
    let all = diff::compare_findings(reference, target, div);
    let rest = all.skip(own.len() as int);
    let found = diff::pattern_findings(reference, target, div);
    assert(rest =~= found);
    let set = diff::steps(reference).union(diff::steps(target));
    diff_laws::lemma_steps_finite(reference);
    diff_laws::lemma_steps_finite(target);
    text::lemma_sorted_lists(set);
    let names = text::sorted(set);
    let f = |step: Seq<char>|
        diff::step_findings(
            step,
            diff::step_frames(reference, step),
            diff::step_frames(target, step),
            div,
        );
    assert forall|i: int| 0 <= i < names.len() implies ordered(#[trigger] f(names[i])) by {
        lemma_step_ordered(
            names[i],
            diff::step_frames(reference, names[i]),
            diff::step_frames(target, names[i]),
            div,
        );
    }
    assert forall|i: int, j: int, a: FindingModel, b: FindingModel|
        0 <= i < j < names.len() && #[trigger] f(names[i]).contains(a) && #[trigger] f(
            names[j],
        ).contains(b) implies precedes(a, b) by {
        lemma_step_ordered(
            names[i],
            diff::step_frames(reference, names[i]),
            diff::step_frames(target, names[i]),
            div,
        );
        lemma_step_ordered(
            names[j],
            diff::step_frames(reference, names[j]),
            diff::step_frames(target, names[j]),
            div,
        );
        assert(text::before(names[i], names[j]));
    }
    lemma_ordered_flat_map(names, f);
    assert forall|i: int| 0 <= i < rest.len() implies layer(#[trigger] rest[i]) >= 1 && step_of(
        rest[i],
    ).len() > 0 by {
        let k = lemma_flat_map_from(names, f, i);
        lemma_step_ordered(
            names[k],
            diff::step_frames(reference, names[k]),
            diff::step_frames(target, names[k]),
            div,
        );
        assert(names.to_set().contains(names[k]));
        assert(set.contains(names[k]));
    }
    assert forall|i: int, j: int| 0 <= i < rest.len() && 0 <= j < rest.len() && i
        != j implies rest[i] != rest[j] by {
        text::lemma_before_irreflexive(step_of(rest[i]));
        text::lemma_before_irreflexive(method_of(rest[i]));
        if i < j {
            assert(precedes(rest[i], rest[j]));
        } else {
            assert(precedes(rest[j], rest[i]));
        }
    }
}

} // verus!
