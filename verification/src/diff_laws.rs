//! What holds of every comparison.
use vstd::prelude::*;

use crate::diff;
use crate::diff::FindingModel;
use crate::divergence;
use crate::divergence::Divergence;
use crate::text;
use crate::transcript::{FrameKind, FrameModel, TargetId};

verus! {

/// A concatenation holds exactly what its parts hold.
proof fn lemma_flat_map_contains<A, B>(s: Seq<A>, f: spec_fn(A) -> Seq<B>, b: B)
    ensures
        s.flat_map(f).contains(b) <==> exists|i: int|
            0 <= i < s.len() && (#[trigger] f(s[i])).contains(b),
    decreases s.len(),
{
    if s.len() == 0 {
        assert(s.flat_map(f) =~= Seq::empty());
    } else {
        let rest = s.drop_last();
        let n = s.len() - 1;
        lemma_flat_map_contains(rest, f, b);
        s.lemma_flat_map_take_append(f, n);
        assert(s.take(n) =~= rest);
        assert(s.take(n + 1) =~= s);
        let (x, y) = (rest.flat_map(f), f(s[n]));
        lemma_add_contains(x, y, b);
        if x.contains(b) {
            let i = choose|i: int| 0 <= i < rest.len() && (#[trigger] f(rest[i])).contains(b);
            assert(f(s[i]).contains(b));
        }
        if exists|i: int| 0 <= i < s.len() && (#[trigger] f(s[i])).contains(b) {
            let i = choose|i: int| 0 <= i < s.len() && (#[trigger] f(s[i])).contains(b);
            if i < n {
                assert(f(rest[i]).contains(b));
            }
        }
    }
}

/// Two lists in a row hold what either holds.
pub(crate) proof fn lemma_add_contains<B>(x: Seq<B>, y: Seq<B>, b: B)
    ensures
        (x + y).contains(b) <==> x.contains(b) || y.contains(b),
{
    if x.contains(b) {
        let i = x.index_of(b);
        assert((x + y)[i] == b);
    }
    if y.contains(b) {
        let i = y.index_of(b);
        assert((x + y)[x.len() + i] == b);
    }
    if (x + y).contains(b) {
        let i = (x + y).index_of(b);
        if i < x.len() {
            assert(x[i] == b);
        } else {
            assert(y[i - x.len()] == b);
        }
    }
}

/// Where no part holds anything, neither does the concatenation.
proof fn lemma_flat_map_empty<A, B>(s: Seq<A>, f: spec_fn(A) -> Seq<B>)
    requires
        forall|i: int| 0 <= i < s.len() ==> #[trigger] f(s[i]) == Seq::<B>::empty(),
    ensures
        s.flat_map(f) == Seq::<B>::empty(),
{
    if s.flat_map(f).len() > 0 {
        let b = s.flat_map(f)[0];
        assert(s.flat_map(f).contains(b));
        lemma_flat_map_contains(s, f, b);
        let i = choose|i: int| 0 <= i < s.len() && (#[trigger] f(s[i])).contains(b);
        assert(false);
    }
    assert(s.flat_map(f) =~= Seq::<B>::empty());
}

/// A set whose members all stand in a list is finite.
proof fn lemma_listed_finite(set: Set<Seq<char>>, list: Seq<Seq<char>>)
    requires
        forall|x: Seq<char>| #[trigger] set.contains(x) ==> list.contains(x),
    ensures
        set.finite(),
{
    vstd::seq_lib::seq_to_set_is_finite(list);
    assert(set.subset_of(list.to_set()));
    vstd::set_lib::lemma_set_subset_finite(list.to_set(), set);
}

pub(crate) proof fn lemma_steps_finite(frames: Seq<FrameModel>)
    ensures
        diff::steps(frames).finite(),
{
    let list = frames.map_values(|f: FrameModel| f.step);
    assert forall|x: Seq<char>| #[trigger] diff::steps(frames).contains(x) implies list.contains(
        x,
    ) by {
        let i = choose|i: int| 0 <= i < frames.len() && (#[trigger] frames[i]).step == x;
        assert(list[i] == x);
    }
    lemma_listed_finite(diff::steps(frames), list);
}

pub(crate) proof fn lemma_sent_finite(frames: Seq<FrameModel>, kind: FrameKind)
    ensures
        diff::sent(frames, kind).finite(),
{
    let list = frames.map_values(|f: FrameModel| f.method);
    assert forall|x: Seq<char>| #[trigger]
        diff::sent(frames, kind).contains(x) implies list.contains(x) by {
        let i = choose|i: int|
            0 <= i < frames.len() && (#[trigger] frames[i]).kind == kind && frames[i].method == x;
        assert(list[i] == x);
    }
    lemma_listed_finite(diff::sent(frames, kind), list);
}

pub(crate) proof fn lemma_succeeding_finite(frames: Seq<FrameModel>)
    ensures
        diff::succeeding(frames).finite(),
{
    let list = frames.map_values(|f: FrameModel| f.method);
    assert forall|x: Seq<char>| #[trigger]
        diff::succeeding(frames).contains(x) implies list.contains(x) by {
        let i = choose|i: int|
            0 <= i < frames.len() && (#[trigger] frames[i]).kind == FrameKind::Response
                && frames[i].method == x && !frames[i].check.error_response;
        assert(list[i] == x);
    }
    lemma_listed_finite(diff::succeeding(frames), list);
}

pub(crate) proof fn lemma_populated_finite(frames: Seq<FrameModel>, kind: FrameKind)
    ensures
        diff::populated(frames, kind).finite(),
{
    let list = frames.map_values(|f: FrameModel| f.method);
    assert forall|x: Seq<char>| #[trigger]
        diff::populated(frames, kind).contains(x) implies list.contains(x) by {
        let i = choose|i: int|
            0 <= i < frames.len() && (#[trigger] frames[i]).kind == kind && frames[i].method == x
                && frames[i].check.fingerprint != Set::<Seq<char>>::empty();
        assert(list[i] == x);
    }
    lemma_listed_finite(diff::populated(frames, kind), list);
}

/// The methods that are reported as unanswered.
proof fn lemma_unanswered(r: Seq<FrameModel>, t: Seq<FrameModel>, div: Divergence, m: Seq<char>)
    ensures
        diff::unanswered(r, t, div).contains(m) <==> diff::succeeding(r).contains(m)
            && !diff::succeeding(t).contains(m) && !diff::failing(t).contains(m)
            && !div.skipped_methods.contains(m),
{
    let set = diff::succeeding(r).difference(diff::succeeding(t)).difference(
        diff::failing(t),
    ).difference(div.skipped_methods.to_set());
    lemma_succeeding_finite(r);
    vstd::set_lib::lemma_set_subset_finite(diff::succeeding(r), set);
    text::lemma_sorted_lists(set);
    assert(text::sorted(set).to_set().contains(m) <==> set.contains(m));
}

/// The kinds of notifications that are reported as lacking.
proof fn lemma_lacking(a: Seq<FrameModel>, b: Seq<FrameModel>, div: Divergence, m: Seq<char>)
    ensures
        diff::lacking(a, b, div).contains(m) <==> diff::sent(a, FrameKind::Notification).contains(m)
            && !diff::sent(b, FrameKind::Notification).contains(m)
            && !div.skipped_notifications.contains(m),
{
    let kinds = diff::sent(a, FrameKind::Notification);
    let set = kinds.difference(diff::sent(b, FrameKind::Notification)).difference(
        div.skipped_notifications.to_set(),
    );
    lemma_sent_finite(a, FrameKind::Notification);
    vstd::set_lib::lemma_set_subset_finite(kinds, set);
    text::lemma_sorted_lists(set);
    assert(text::sorted(set).to_set().contains(m) <==> set.contains(m));
}

/// The steps that are walked are those that either side has.
proof fn lemma_walked_steps(r: Seq<FrameModel>, t: Seq<FrameModel>, step: Seq<char>)
    ensures
        text::sorted(diff::steps(r).union(diff::steps(t))).contains(step) <==> diff::steps(
            r,
        ).contains(step) || diff::steps(t).contains(step),
{
    let set = diff::steps(r).union(diff::steps(t));
    lemma_steps_finite(r);
    lemma_steps_finite(t);
    text::lemma_sorted_lists(set);
    assert(text::sorted(set).to_set().contains(step) <==> set.contains(step));
}

proof fn lemma_compared_methods(r: Seq<FrameModel>, t: Seq<FrameModel>, m: Seq<char>)
    ensures
        diff::compared_methods(r, t).contains(m) <==> exists|kind: FrameKind|
            diff::populated(r, kind).contains(m) || diff::populated(t, kind).contains(m),
{
    let (p, n) = (FrameKind::Response, FrameKind::Notification);
    let set = diff::populated(r, p).union(diff::populated(r, n)).union(
        diff::populated(t, p),
    ).union(diff::populated(t, n));
    lemma_populated_finite(r, p);
    lemma_populated_finite(r, n);
    lemma_populated_finite(t, p);
    lemma_populated_finite(t, n);
    text::lemma_sorted_lists(set);
    assert(text::sorted(set).to_set().contains(m) <==> set.contains(m));
}

/// A key that some frame populates makes its method one that is compared.
proof fn lemma_keys_populated(frames: Seq<FrameModel>, m: Seq<char>, kind: FrameKind)
    requires
        diff::populated_keys(frames, m, kind) != Set::<Seq<char>>::empty(),
    ensures
        diff::populated(frames, kind).contains(m),
{
    let keys = diff::populated_keys(frames, m, kind);
    if forall|p: Seq<char>| !keys.contains(p) {
        assert(keys =~= Set::empty());
    }
    let p = choose|p: Seq<char>| keys.contains(p);
    let i = choose|i: int|
        0 <= i < frames.len() && (#[trigger] frames[i]).kind == kind && frames[i].method == m
            && frames[i].check.fingerprint.contains(p);
    assert(frames[i].check.fingerprint != Set::<Seq<char>>::empty());
}

/// What the comparison of patterns holds, by step.
proof fn lemma_pattern_contains(
    r: Seq<FrameModel>,
    t: Seq<FrameModel>,
    div: Divergence,
    finding: FindingModel,
)
    ensures
        diff::pattern_findings(r, t, div).contains(finding) <==> exists|step: Seq<char>|
            (diff::steps(r).contains(step) || diff::steps(t).contains(step))
                && (#[trigger] diff::step_findings(
                step,
                diff::step_frames(r, step),
                diff::step_frames(t, step),
                div,
            )).contains(finding),
{
    let names = text::sorted(diff::steps(r).union(diff::steps(t)));
    let f = |step: Seq<char>|
        diff::step_findings(step, diff::step_frames(r, step), diff::step_frames(t, step), div);
    lemma_flat_map_contains(names, f, finding);
    if diff::pattern_findings(r, t, div).contains(finding) {
        let i = choose|i: int| 0 <= i < names.len() && (#[trigger] f(names[i])).contains(finding);
        assert(names.contains(names[i]));
        lemma_walked_steps(r, t, names[i]);
        assert(diff::step_findings(
            names[i],
            diff::step_frames(r, names[i]),
            diff::step_frames(t, names[i]),
            div,
        ).contains(finding));
    }
    assert forall|step: Seq<char>|
        (diff::steps(r).contains(step) || diff::steps(t).contains(step))
            && (#[trigger] diff::step_findings(
            step,
            diff::step_frames(r, step),
            diff::step_frames(t, step),
            div,
        )).contains(finding) implies diff::pattern_findings(r, t, div).contains(finding) by {
        lemma_walked_steps(r, t, step);
        let i = names.index_of(step);
        assert(f(names[i]).contains(finding));
    }
}

/// What the comparison of one step holds, by layer.
proof fn lemma_step_contains(
    step: Seq<char>,
    r: Seq<FrameModel>,
    t: Seq<FrameModel>,
    div: Divergence,
    finding: FindingModel,
)
    ensures
        diff::step_findings(step, r, t, div).contains(finding) <==> match finding {
            FindingModel::MissingResponse { step: s, method } => s == step && diff::unanswered(
                r,
                t,
                div,
            ).contains(method),
            FindingModel::MissingNotification { step: s, method } => s == step && diff::lacking(
                r,
                t,
                div,
            ).contains(method),
            FindingModel::ExtraNotification { step: s, method } => s == step && diff::lacking(
                t,
                r,
                div,
            ).contains(method),
            FindingModel::KeyDifference { step: s, method, kind, missing, extra } => {
                &&& s == step
                &&& diff::sent(r, kind).contains(method)
                &&& diff::sent(t, kind).contains(method)
                &&& !diff::exempt(div, method, kind)
                &&& missing == diff::populated_keys(r, method, kind).difference(
                    diff::populated_keys(t, method, kind),
                ).difference(div.allowed_paths(method))
                &&& extra == diff::populated_keys(t, method, kind).difference(
                    diff::populated_keys(r, method, kind),
                ).difference(div.allowed_paths(method))
                &&& missing != Set::<Seq<char>>::empty() || extra != Set::<Seq<char>>::empty()
            },
            _ => false,
        },
{
    let silent_name = |method: Seq<char>| FindingModel::MissingResponse { step, method };
    let missing_name = |method: Seq<char>| FindingModel::MissingNotification { step, method };
    let extra_name = |method: Seq<char>| FindingModel::ExtraNotification { step, method };
    let keys = |method: Seq<char>| diff::method_findings(step, method, r, t, div);
    let (x, y) = (diff::lacking(r, t, div), diff::lacking(t, r, div));
    let w = diff::unanswered(r, t, div);
    let z = diff::compared_methods(r, t);
    let d = w.map_values(silent_name);
    let (a, b, c) = (x.map_values(missing_name), y.map_values(extra_name), z.flat_map(keys));
    lemma_add_contains(d + a + b, c, finding);
    lemma_add_contains(d + a, b, finding);
    lemma_add_contains(d, a, finding);
    lemma_flat_map_contains(z, keys, finding);
    if d.contains(finding) {
        let i = d.index_of(finding);
        assert(w.contains(w[i]));
    }
    if a.contains(finding) {
        let i = a.index_of(finding);
        assert(x.contains(x[i]));
    }
    if b.contains(finding) {
        let i = b.index_of(finding);
        assert(y.contains(y[i]));
    }
    match finding {
        FindingModel::MissingResponse { step: s, method } => {
            if s == step && w.contains(method) {
                let i = w.index_of(method);
                assert(d[i] == finding);
            }
        },
        FindingModel::MissingNotification { step: s, method } => {
            if s == step && x.contains(method) {
                let i = x.index_of(method);
                assert(a[i] == finding);
            }
        },
        FindingModel::ExtraNotification { step: s, method } => {
            if s == step && y.contains(method) {
                let i = y.index_of(method);
                assert(b[i] == finding);
            }
        },
        FindingModel::KeyDifference { step: s, method, kind, missing, extra } => {
            let (rk, tk) = (
                diff::populated_keys(r, method, kind),
                diff::populated_keys(t, method, kind),
            );
            let found = diff::kind_findings(step, method, kind, r, t, div);
            let holds = s == step && diff::sent(r, kind).contains(method) && diff::sent(
                t,
                kind,
            ).contains(method) && !diff::exempt(div, method, kind) && missing == rk.difference(
                tk,
            ).difference(div.allowed_paths(method)) && extra == tk.difference(rk).difference(
                div.allowed_paths(method),
            ) && (missing != Set::<Seq<char>>::empty() || extra != Set::<Seq<char>>::empty());
            if holds {
                assert(found =~= seq![finding]);
                assert(found[0] == finding);
                if rk == Set::<Seq<char>>::empty() && tk == Set::<Seq<char>>::empty() {
                    assert(missing =~= Set::empty());
                    assert(extra =~= Set::empty());
                }
                if rk != Set::<Seq<char>>::empty() {
                    lemma_keys_populated(r, method, kind);
                } else {
                    lemma_keys_populated(t, method, kind);
                }
                lemma_compared_methods(r, t, method);
                let i = z.index_of(method);
                lemma_method_contains(step, method, r, t, div, finding);
                assert(keys(z[i]).contains(finding));
            }
            if c.contains(finding) {
                let i = choose|i: int|
                    0 <= i < z.len() && (#[trigger] keys(z[i])).contains(finding);
                lemma_method_contains(step, z[i], r, t, div, finding);
            }
        },
        _ => {},
    }
    if c.contains(finding) {
        let i = choose|i: int| 0 <= i < z.len() && (#[trigger] keys(z[i])).contains(finding);
        lemma_method_contains(step, z[i], r, t, div, finding);
    }
}

/// The comparison of one method's keys holds differences of that method only.
proof fn lemma_method_contains(
    step: Seq<char>,
    method: Seq<char>,
    r: Seq<FrameModel>,
    t: Seq<FrameModel>,
    div: Divergence,
    finding: FindingModel,
)
    ensures
        diff::method_findings(step, method, r, t, div).contains(finding) <==> exists|
            kind: FrameKind,
        |
            (#[trigger] diff::kind_findings(step, method, kind, r, t, div)).contains(finding),
        diff::method_findings(step, method, r, t, div).contains(finding) ==> finding
            is KeyDifference && finding->KeyDifference_step == step
            && finding->KeyDifference_method == method && diff::kind_findings(
            step,
            method,
            finding->KeyDifference_kind,
            r,
            t,
            div,
        ) == seq![finding],
{
    let of = |kind: FrameKind| diff::kind_findings(step, method, kind, r, t, div);
    let (p, n) = (of(FrameKind::Response), of(FrameKind::Notification));
    lemma_add_contains(p, n, finding);
    if p.contains(finding) {
        assert(p[0] == finding);
        assert(p =~= seq![finding]);
    }
    if n.contains(finding) {
        assert(n[0] == finding);
        assert(n =~= seq![finding]);
    }
    assert forall|kind: FrameKind|
        (#[trigger] diff::kind_findings(step, method, kind, r, t, div)).contains(
            finding,
        ) implies p.contains(finding) || n.contains(finding) by {
        match kind {
            FrameKind::Response => {},
            FrameKind::Notification => {},
        }
    }
}

/// What frames give rise to by themselves.
proof fn lemma_checked_contains(
    frames: Seq<FrameModel>,
    skipped: Seq<Seq<char>>,
    reference: Option<Seq<FrameModel>>,
    finding: FindingModel,
)
    ensures
        diff::checked_findings(frames, skipped, reference).contains(finding) <==> exists|i: int|
            0 <= i < frames.len() && (#[trigger] diff::frame_findings(
                frames[i],
                skipped,
                reference,
            )).contains(finding),
{
    let f = |frame: FrameModel| diff::frame_findings(frame, skipped, reference);
    lemma_flat_map_contains(frames, f, finding);
    if diff::checked_findings(frames, skipped, reference).contains(finding) {
        let i = choose|i: int| 0 <= i < frames.len() && (#[trigger] f(frames[i])).contains(finding);
        assert(diff::frame_findings(frames[i], skipped, reference).contains(finding));
    }
    if exists|i: int|
        0 <= i < frames.len() && (#[trigger] diff::frame_findings(
            frames[i],
            skipped,
            reference,
        )).contains(finding) {
        let i = choose|i: int|
            0 <= i < frames.len() && (#[trigger] diff::frame_findings(
                frames[i],
                skipped,
                reference,
            )).contains(finding);
        assert(f(frames[i]).contains(finding));
    }
}

/// What one frame gives rise to by itself.
proof fn lemma_frame_contains(
    frame: FrameModel,
    skipped: Seq<Seq<char>>,
    reference: Option<Seq<FrameModel>>,
    finding: FindingModel,
)
    ensures
        diff::frame_findings(frame, skipped, reference).contains(finding) <==> match finding {
            FindingModel::SchemaError { step, method, kind, message } => {
                &&& (step, method, kind) == (frame.step, frame.method, frame.kind)
                &&& frame.check.deserialize_error == Some(message)
            },
            FindingModel::UpstreamSchemaError { step, method, kind, message } => {
                &&& (step, method, kind) == (frame.step, frame.method, frame.kind)
                &&& frame.check.upstream_error == Some(message)
                &&& !frame.check.error_response
            },
            FindingModel::UnexpectedError { step, method, code, message } => {
                &&& (step, method) == (frame.step, frame.method)
                &&& frame.kind == FrameKind::Response
                &&& frame.check.error_code == Some(code)
                &&& frame.check.error_message == Some(message)
                &&& diff::unexpected(method, skipped, reference)
            },
            _ => false,
        },
{
    let (step, method, kind) = (frame.step, frame.method, frame.kind);
    let typed = match frame.check.deserialize_error {
        Some(message) => seq![FindingModel::SchemaError { step, method, kind, message }],
        None => seq![],
    };
    let upstream = match frame.check.upstream_error {
        Some(message) if !frame.check.error_response => {
            seq![FindingModel::UpstreamSchemaError { step, method, kind, message }]
        },
        _ => seq![],
    };
    let failed = match (frame.check.error_code, frame.check.error_message) {
        (Some(code), Some(message)) if kind == FrameKind::Response && diff::unexpected(
            method,
            skipped,
            reference,
        ) => seq![FindingModel::UnexpectedError { step, method, code, message }],
        _ => seq![],
    };
    lemma_add_contains(typed + upstream, failed, finding);
    lemma_add_contains(typed, upstream, finding);
    if typed.len() > 0 {
        assert(typed.contains(typed[0]));
    }
    if upstream.len() > 0 {
        assert(upstream.contains(upstream[0]));
    }
    if failed.len() > 0 {
        assert(failed.contains(failed[0]));
    }
}

/// A report holds what the frames give rise to by themselves and what the steps do.
proof fn lemma_report_contains(
    reference: Seq<FrameModel>,
    target: Seq<FrameModel>,
    div: Divergence,
    finding: FindingModel,
)
    ensures
        diff::compare_findings(reference, target, div).contains(finding) <==> (exists|i: int|
            0 <= i < target.len() && (#[trigger] diff::frame_findings(
                target[i],
                div.skipped_methods,
                Some(reference),
            )).contains(finding)) || (exists|step: Seq<char>|
            (diff::steps(reference).contains(step) || diff::steps(target).contains(step))
                && (#[trigger] diff::step_findings(
                step,
                diff::step_frames(reference, step),
                diff::step_frames(target, step),
                div,
            )).contains(finding)),
{
    lemma_add_contains(
        diff::checked_findings(target, div.skipped_methods, Some(reference)),
        diff::pattern_findings(reference, target, div),
        finding,
    );
    lemma_checked_contains(target, div.skipped_methods, Some(reference), finding);
    lemma_pattern_contains(reference, target, div, finding);
}

/// A comparison begins with what the frames of the target give rise to by themselves.
pub proof fn law_check_comes_first(
    reference: Seq<FrameModel>,
    target: Seq<FrameModel>,
    div: Divergence,
)
    ensures
        diff::checked_findings(target, div.skipped_methods, Some(reference)).is_prefix_of(
            diff::compare_findings(reference, target, div),
        ),
{
}

/// A check without a reference finds all that frames give rise to by themselves where there is
/// one. What it finds besides are errors of methods that do not succeed on the reference.
pub proof fn law_reference_excuses_errors(
    reference: Seq<FrameModel>,
    target: Seq<FrameModel>,
    skipped: Seq<Seq<char>>,
    finding: FindingModel,
)
    ensures
        diff::checked_findings(target, skipped, Some(reference)).contains(finding)
            <==> diff::checked_findings(target, skipped, None).contains(finding) && (finding
            is UnexpectedError ==> diff::succeeding(reference).contains(
            finding->UnexpectedError_method,
        )),
{
    lemma_checked_contains(target, skipped, Some(reference), finding);
    lemma_checked_contains(target, skipped, None, finding);
    assert forall|i: int| 0 <= i < target.len() implies (diff::frame_findings(
        target[i],
        skipped,
        Some(reference),
    ).contains(finding) <==> diff::frame_findings(target[i], skipped, None).contains(finding) && (
    finding is UnexpectedError ==> diff::succeeding(reference).contains(
        finding->UnexpectedError_method,
    ))) by {
        lemma_frame_contains(target[i], skipped, Some(reference), finding);
        lemma_frame_contains(target[i], skipped, None, finding);
    }
    if diff::checked_findings(target, skipped, Some(reference)).contains(finding) {
        let i = choose|i: int|
            0 <= i < target.len() && (#[trigger] diff::frame_findings(
                target[i],
                skipped,
                Some(reference),
            )).contains(finding);
        assert(diff::frame_findings(target[i], skipped, None).contains(finding));
    }
    if diff::checked_findings(target, skipped, None).contains(finding) {
        let i = choose|i: int|
            0 <= i < target.len() && (#[trigger] diff::frame_findings(
                target[i],
                skipped,
                None,
            )).contains(finding);
        assert(diff::frame_findings(target[i], skipped, Some(reference)).contains(finding)
            <==> (finding is UnexpectedError ==> diff::succeeding(reference).contains(
            finding->UnexpectedError_method,
        )));
    }
}

/// A target that says what the reference says differs in nothing: all that a comparison finds is
/// what the checks object to by themselves.
pub proof fn law_identical_transcripts(frames: Seq<FrameModel>, div: Divergence)
    ensures
        diff::compare_findings(frames, frames, div) == diff::checked_findings(
            frames,
            div.skipped_methods,
            Some(frames),
        ),
{
    let found = diff::pattern_findings(frames, frames, div);
    if found.len() > 0 {
        let finding = found[0];
        assert(found.contains(finding));
        lemma_pattern_contains(frames, frames, div, finding);
        let step = choose|step: Seq<char>|
            (diff::steps(frames).contains(step) || diff::steps(frames).contains(step))
                && (#[trigger] diff::step_findings(
                step,
                diff::step_frames(frames, step),
                diff::step_frames(frames, step),
                div,
            )).contains(finding);
        let own = diff::step_frames(frames, step);
        lemma_step_contains(step, own, own, div, finding);
        match finding {
            FindingModel::MissingResponse { step: s, method } => {
                lemma_unanswered(own, own, div, method);
            },
            FindingModel::MissingNotification { step: s, method } => {
                lemma_lacking(own, own, div, method);
            },
            FindingModel::ExtraNotification { step: s, method } => {
                lemma_lacking(own, own, div, method);
            },
            FindingModel::KeyDifference { step: s, method, kind, missing, extra } => {
                assert(missing =~= Set::empty());
                assert(extra =~= Set::empty());
            },
            _ => {},
        }
        assert(false);
    }
    assert(diff::compare_findings(frames, frames, div) =~= diff::checked_findings(
        frames,
        div.skipped_methods,
        Some(frames),
    ));
}

/// A target that says what the reference says, where no check objects to any frame and no method
/// fails that succeeds too, has a clean report.
pub proof fn law_conforming_target_is_clean(frames: Seq<FrameModel>, div: Divergence)
    requires
        forall|i: int|
            0 <= i < frames.len() ==> {
                &&& (#[trigger] frames[i]).check.deserialize_error is None
                &&& frames[i].check.upstream_error is None
                &&& frames[i].check.error_code is Some ==> !diff::succeeding(frames).contains(
                    frames[i].method,
                )
            },
    ensures
        diff::compare_findings(frames, frames, div) == Seq::<FindingModel>::empty(),
{
    law_identical_transcripts(frames, div);
    let f = |frame: FrameModel|
        diff::frame_findings(frame, div.skipped_methods, Some(frames));
    assert forall|i: int| 0 <= i < frames.len() implies #[trigger] f(frames[i]) == Seq::<
        FindingModel,
    >::empty() by {
        assert(f(frames[i]) =~= Seq::<FindingModel>::empty());
    }
    lemma_flat_map_empty(frames, f);
}

/// Every frame that does not deserialize is reported, and nothing else is reported as such: no
/// allowlist silences this layer.
pub proof fn law_schema_errors(
    reference: Seq<FrameModel>,
    target: Seq<FrameModel>,
    div: Divergence,
    step: Seq<char>,
    method: Seq<char>,
    kind: FrameKind,
    message: Seq<char>,
)
    ensures
        diff::compare_findings(reference, target, div).contains(
            FindingModel::SchemaError { step, method, kind, message },
        ) <==> exists|i: int|
            0 <= i < target.len() && (#[trigger] target[i]).step == step && target[i].method
                == method && target[i].kind == kind && target[i].check.deserialize_error == Some(
                message,
            ),
{
    let finding = FindingModel::SchemaError { step, method, kind, message };
    lemma_report_contains(reference, target, div, finding);
    assert forall|i: int| 0 <= i < target.len() implies ((#[trigger] diff::frame_findings(
        target[i],
        div.skipped_methods,
        Some(reference),
    )).contains(finding) <==> target[i].step == step && target[i].method == method
        && target[i].kind == kind && target[i].check.deserialize_error == Some(message)) by {
        lemma_frame_contains(target[i], div.skipped_methods, Some(reference), finding);
    }
    assert forall|s: Seq<char>| !(#[trigger] diff::step_findings(
        s,
        diff::step_frames(reference, s),
        diff::step_frames(target, s),
        div,
    )).contains(finding) by {
        lemma_step_contains(
            s,
            diff::step_frames(reference, s),
            diff::step_frames(target, s),
            div,
            finding,
        );
    }
    if exists|i: int|
        0 <= i < target.len() && (#[trigger] target[i]).step == step && target[i].method == method
            && target[i].kind == kind && target[i].check.deserialize_error == Some(message) {
        let i = choose|i: int|
            0 <= i < target.len() && (#[trigger] target[i]).step == step && target[i].method
                == method && target[i].kind == kind && target[i].check.deserialize_error == Some(
                message,
            );
        assert(diff::frame_findings(target[i], div.skipped_methods, Some(reference)).contains(
            finding,
        ));
    }
}

/// A frame that does not meet the upstream schema is reported exactly where it is no error
/// response: no allowlist silences this layer either.
pub proof fn law_upstream_errors(
    reference: Seq<FrameModel>,
    target: Seq<FrameModel>,
    div: Divergence,
    step: Seq<char>,
    method: Seq<char>,
    kind: FrameKind,
    message: Seq<char>,
)
    ensures
        diff::compare_findings(reference, target, div).contains(
            FindingModel::UpstreamSchemaError { step, method, kind, message },
        ) <==> exists|i: int|
            0 <= i < target.len() && (#[trigger] target[i]).step == step && target[i].method
                == method && target[i].kind == kind && target[i].check.upstream_error == Some(
                message,
            ) && !target[i].check.error_response,
{
    let finding = FindingModel::UpstreamSchemaError { step, method, kind, message };
    lemma_report_contains(reference, target, div, finding);
    assert forall|i: int| 0 <= i < target.len() implies ((#[trigger] diff::frame_findings(
        target[i],
        div.skipped_methods,
        Some(reference),
    )).contains(finding) <==> target[i].step == step && target[i].method == method
        && target[i].kind == kind && target[i].check.upstream_error == Some(message)
        && !target[i].check.error_response) by {
        lemma_frame_contains(target[i], div.skipped_methods, Some(reference), finding);
    }
    assert forall|s: Seq<char>| !(#[trigger] diff::step_findings(
        s,
        diff::step_frames(reference, s),
        diff::step_frames(target, s),
        div,
    )).contains(finding) by {
        lemma_step_contains(
            s,
            diff::step_frames(reference, s),
            diff::step_frames(target, s),
            div,
            finding,
        );
    }
    if exists|i: int|
        0 <= i < target.len() && (#[trigger] target[i]).step == step && target[i].method == method
            && target[i].kind == kind && target[i].check.upstream_error == Some(message)
            && !target[i].check.error_response {
        let i = choose|i: int|
            0 <= i < target.len() && (#[trigger] target[i]).step == step && target[i].method
                == method && target[i].kind == kind && target[i].check.upstream_error == Some(
                message,
            ) && !target[i].check.error_response;
        assert(diff::frame_findings(target[i], div.skipped_methods, Some(reference)).contains(
            finding,
        ));
    }
}

/// An error response is reported exactly where its method is not one that may fail and succeeds on
/// the reference.
pub proof fn law_unexpected_errors(
    reference: Seq<FrameModel>,
    target: Seq<FrameModel>,
    div: Divergence,
    step: Seq<char>,
    method: Seq<char>,
    code: i64,
    message: Seq<char>,
)
    ensures
        diff::compare_findings(reference, target, div).contains(
            FindingModel::UnexpectedError { step, method, code, message },
        ) <==> !div.skipped_methods.contains(method) && diff::succeeding(reference).contains(method)
            && exists|i: int|
            0 <= i < target.len() && (#[trigger] target[i]).step == step && target[i].method
                == method && target[i].kind == FrameKind::Response && target[i].check.error_code
                == Some(code) && target[i].check.error_message == Some(message),
{
    let finding = FindingModel::UnexpectedError { step, method, code, message };
    lemma_report_contains(reference, target, div, finding);
    assert forall|i: int| 0 <= i < target.len() implies ((#[trigger] diff::frame_findings(
        target[i],
        div.skipped_methods,
        Some(reference),
    )).contains(finding) <==> target[i].step == step && target[i].method == method
        && target[i].kind == FrameKind::Response && target[i].check.error_code == Some(code)
        && target[i].check.error_message == Some(message) && diff::unexpected(
        method,
        div.skipped_methods,
        Some(reference),
    )) by {
        lemma_frame_contains(target[i], div.skipped_methods, Some(reference), finding);
    }
    assert forall|s: Seq<char>| !(#[trigger] diff::step_findings(
        s,
        diff::step_frames(reference, s),
        diff::step_frames(target, s),
        div,
    )).contains(finding) by {
        lemma_step_contains(
            s,
            diff::step_frames(reference, s),
            diff::step_frames(target, s),
            div,
            finding,
        );
    }
    if exists|i: int|
        0 <= i < target.len() && (#[trigger] target[i]).step == step && target[i].method == method
            && target[i].kind == FrameKind::Response && target[i].check.error_code == Some(code)
            && target[i].check.error_message == Some(message) {
        let i = choose|i: int|
            0 <= i < target.len() && (#[trigger] target[i]).step == step && target[i].method
                == method && target[i].kind == FrameKind::Response && target[i].check.error_code
                == Some(code) && target[i].check.error_message == Some(message);
        assert(diff::frame_findings(target[i], div.skipped_methods, Some(reference)).contains(finding)
            <==> diff::unexpected(method, div.skipped_methods, Some(reference)));
    }
}

/// A method is reported as unanswered in a step exactly where it succeeds on the reference there,
/// gets from the target there neither a response which is no error nor an error with a code and a
/// message, and is not one that may fail.
pub proof fn law_missing_responses(
    reference: Seq<FrameModel>,
    target: Seq<FrameModel>,
    div: Divergence,
    step: Seq<char>,
    method: Seq<char>,
)
    ensures
        diff::compare_findings(reference, target, div).contains(
            FindingModel::MissingResponse { step, method },
        ) <==> {
            &&& step.len() > 0
            &&& diff::succeeding(diff::step_frames(reference, step)).contains(method)
            &&& !diff::succeeding(diff::step_frames(target, step)).contains(method)
            &&& !diff::failing(diff::step_frames(target, step)).contains(method)
            &&& !div.skipped_methods.contains(method)
        },
{
    let finding = FindingModel::MissingResponse { step, method };
    lemma_pattern_only(reference, target, div, finding, step);
    let (r, t) = (diff::step_frames(reference, step), diff::step_frames(target, step));
    lemma_unanswered(r, t, div, method);
    if step.len() > 0 && diff::succeeding(r).contains(method) {
        lemma_step_seen(reference, step);
    }
}

/// Method presence: where a method that may not fail succeeds on the reference in a named step,
/// the report is clean only if it succeeds on the target there too, and gets no error from the
/// target anywhere that has a code and a message.
pub proof fn law_method_presence(
    reference: Seq<FrameModel>,
    target: Seq<FrameModel>,
    div: Divergence,
    step: Seq<char>,
    method: Seq<char>,
)
    requires
        step.len() > 0,
        diff::succeeding(diff::step_frames(reference, step)).contains(method),
        !div.skipped_methods.contains(method),
        diff::compare_findings(reference, target, div).len() == 0,
    ensures
        diff::succeeding(diff::step_frames(target, step)).contains(method),
        exists|i: int|
            0 <= i < target.len() && (#[trigger] target[i]).step == step && target[i].kind
                == FrameKind::Response && target[i].method == method
                && !target[i].check.error_response,
        forall|i: int|
            0 <= i < target.len() && (#[trigger] target[i]).kind == FrameKind::Response
                && target[i].method == method ==> target[i].check.error_code is None
                || target[i].check.error_message is None,
{
    let own = diff::step_frames(reference, step);
    law_missing_responses(reference, target, div, step, method);
    let k = choose|k: int|
        0 <= k < own.len() && (#[trigger] own[k]).kind == FrameKind::Response && own[k].method
            == method && !own[k].check.error_response;
    reference.lemma_filter_contains_rev(|f: FrameModel| f.step == step, own[k]);
    let j = reference.index_of(own[k]);
    assert(reference[j] == own[k]);
    assert(diff::succeeding(reference).contains(method));
    assert forall|i: int|
        0 <= i < target.len() && (#[trigger] target[i]).kind == FrameKind::Response
            && target[i].method == method implies target[i].check.error_code is None
        || target[i].check.error_message is None by {
        if target[i].check.error_code is Some && target[i].check.error_message is Some {
            let (code, message) = (
                target[i].check.error_code->0,
                target[i].check.error_message->0,
            );
            law_unexpected_errors(
                reference,
                target,
                div,
                target[i].step,
                method,
                code,
                message,
            );
            assert(diff::compare_findings(reference, target, div).contains(
                FindingModel::UnexpectedError { step: target[i].step, method, code, message },
            ));
        }
    }
    let answers = diff::step_frames(target, step);
    if diff::failing(answers).contains(method) {
        let i = choose|i: int|
            0 <= i < answers.len() && (#[trigger] answers[i]).kind == FrameKind::Response
                && answers[i].method == method && answers[i].check.error_code is Some
                && answers[i].check.error_message is Some;
        target.lemma_filter_contains_rev(|f: FrameModel| f.step == step, answers[i]);
        assert(target[target.index_of(answers[i])] == answers[i]);
    }
    let i = choose|i: int|
        0 <= i < answers.len() && (#[trigger] answers[i]).kind == FrameKind::Response
            && answers[i].method == method && !answers[i].check.error_response;
    law_all_frames_of_a_step_count(target, step, answers[i]);
    assert(target[target.index_of(answers[i])] == answers[i]);
}

/// A kind of notification is reported as missing in a step exactly where the reference sent it
/// there, the target did not, and it is not one that may differ.
pub proof fn law_missing_notifications(
    reference: Seq<FrameModel>,
    target: Seq<FrameModel>,
    div: Divergence,
    step: Seq<char>,
    method: Seq<char>,
)
    ensures
        diff::compare_findings(reference, target, div).contains(
            FindingModel::MissingNotification { step, method },
        ) <==> {
            &&& step.len() > 0
            &&& diff::sent(
                diff::step_frames(reference, step),
                FrameKind::Notification,
            ).contains(method)
            &&& !diff::sent(
                diff::step_frames(target, step),
                FrameKind::Notification,
            ).contains(method)
            &&& !div.skipped_notifications.contains(method)
        },
{
    let finding = FindingModel::MissingNotification { step, method };
    lemma_pattern_only(reference, target, div, finding, step);
    let (r, t) = (diff::step_frames(reference, step), diff::step_frames(target, step));
    lemma_lacking(r, t, div, method);
    if step.len() > 0 && diff::sent(r, FrameKind::Notification).contains(method) {
        lemma_step_seen(reference, step);
    }
}

/// A kind of notification is reported as extra in a step exactly where the target sent it there,
/// the reference did not, and it is not one that may differ.
pub proof fn law_extra_notifications(
    reference: Seq<FrameModel>,
    target: Seq<FrameModel>,
    div: Divergence,
    step: Seq<char>,
    method: Seq<char>,
)
    ensures
        diff::compare_findings(reference, target, div).contains(
            FindingModel::ExtraNotification { step, method },
        ) <==> {
            &&& step.len() > 0
            &&& diff::sent(
                diff::step_frames(target, step),
                FrameKind::Notification,
            ).contains(method)
            &&& !diff::sent(
                diff::step_frames(reference, step),
                FrameKind::Notification,
            ).contains(method)
            &&& !div.skipped_notifications.contains(method)
        },
{
    let finding = FindingModel::ExtraNotification { step, method };
    lemma_pattern_only(reference, target, div, finding, step);
    let (r, t) = (diff::step_frames(reference, step), diff::step_frames(target, step));
    lemma_lacking(t, r, div, method);
    if step.len() > 0 && diff::sent(t, FrameKind::Notification).contains(method) {
        lemma_step_seen(target, step);
    }
}

/// A difference of keys is reported exactly where both sides sent frames of the method in the
/// step, they are compared at all, and some key that is not left out stands on one side only;
/// `missing` and `extra` are all such keys.
pub proof fn law_key_differences(
    reference: Seq<FrameModel>,
    target: Seq<FrameModel>,
    div: Divergence,
    step: Seq<char>,
    method: Seq<char>,
    kind: FrameKind,
    missing: Set<Seq<char>>,
    extra: Set<Seq<char>>,
)
    ensures
        diff::compare_findings(reference, target, div).contains(
            FindingModel::KeyDifference { step, method, kind, missing, extra },
        ) <==> {
            let r = diff::populated_keys(diff::step_frames(reference, step), method, kind);
            let t = diff::populated_keys(diff::step_frames(target, step), method, kind);
            &&& step.len() > 0
            &&& diff::sent(diff::step_frames(reference, step), kind).contains(method)
            &&& diff::sent(diff::step_frames(target, step), kind).contains(method)
            &&& !diff::exempt(div, method, kind)
            &&& missing == r.difference(t).difference(div.allowed_paths(method))
            &&& extra == t.difference(r).difference(div.allowed_paths(method))
            &&& missing != Set::<Seq<char>>::empty() || extra != Set::<Seq<char>>::empty()
        },
{
    let finding = FindingModel::KeyDifference { step, method, kind, missing, extra };
    lemma_pattern_only(reference, target, div, finding, step);
    let (rf, tf) = (diff::step_frames(reference, step), diff::step_frames(target, step));
    let (r, t) = (
        diff::populated_keys(rf, method, kind),
        diff::populated_keys(tf, method, kind),
    );
    lemma_step_contains(step, rf, tf, div, finding);
    if step.len() > 0 && !diff::steps(reference).contains(step) && !diff::steps(target).contains(
        step,
    ) {
        if rf.len() > 0 {
            lemma_step_seen(reference, step);
        }
        if tf.len() > 0 {
            lemma_step_seen(target, step);
        }
        assert(r =~= Set::empty());
        assert(t =~= Set::empty());
        assert(r.difference(t).difference(div.allowed_paths(method)) =~= Set::empty());
        assert(t.difference(r).difference(div.allowed_paths(method)) =~= Set::empty());
    }
}

/// A finding of the pattern layer about a step comes from that step.
proof fn lemma_pattern_only(
    reference: Seq<FrameModel>,
    target: Seq<FrameModel>,
    div: Divergence,
    finding: FindingModel,
    step: Seq<char>,
)
    requires
        match finding {
            FindingModel::MissingResponse { step: s, .. } => s == step,
            FindingModel::MissingNotification { step: s, .. } => s == step,
            FindingModel::ExtraNotification { step: s, .. } => s == step,
            FindingModel::KeyDifference { step: s, .. } => s == step,
            _ => false,
        },
    ensures
        diff::compare_findings(reference, target, div).contains(finding) <==> (diff::steps(
            reference,
        ).contains(step) || diff::steps(target).contains(step)) && diff::step_findings(
            step,
            diff::step_frames(reference, step),
            diff::step_frames(target, step),
            div,
        ).contains(finding),
        diff::step_findings(
            step,
            diff::step_frames(reference, step),
            diff::step_frames(target, step),
            div,
        ).contains(finding) <==> match finding {
            FindingModel::MissingResponse { method, .. } => diff::unanswered(
                diff::step_frames(reference, step),
                diff::step_frames(target, step),
                div,
            ).contains(method),
            FindingModel::MissingNotification { method, .. } => diff::lacking(
                diff::step_frames(reference, step),
                diff::step_frames(target, step),
                div,
            ).contains(method),
            FindingModel::ExtraNotification { method, .. } => diff::lacking(
                diff::step_frames(target, step),
                diff::step_frames(reference, step),
                div,
            ).contains(method),
            _ => diff::step_findings(
                step,
                diff::step_frames(reference, step),
                diff::step_frames(target, step),
                div,
            ).contains(finding),
        },
{
    lemma_report_contains(reference, target, div, finding);
    assert forall|i: int| 0 <= i < target.len() implies !(#[trigger] diff::frame_findings(
        target[i],
        div.skipped_methods,
        Some(reference),
    )).contains(finding) by {
        lemma_frame_contains(target[i], div.skipped_methods, Some(reference), finding);
    }
    assert forall|s: Seq<char>|
        (#[trigger] diff::step_findings(
            s,
            diff::step_frames(reference, s),
            diff::step_frames(target, s),
            div,
        )).contains(finding) implies s == step by {
        lemma_step_contains(
            s,
            diff::step_frames(reference, s),
            diff::step_frames(target, s),
            div,
            finding,
        );
    }
    lemma_step_contains(
        step,
        diff::step_frames(reference, step),
        diff::step_frames(target, step),
        div,
        finding,
    );
}

/// A step with frames is one that the transcript has.
proof fn lemma_step_seen(frames: Seq<FrameModel>, step: Seq<char>)
    requires
        diff::step_frames(frames, step).len() > 0,
        step.len() > 0,
    ensures
        diff::steps(frames).contains(step),
{
    let f = diff::step_frames(frames, step)[0];
    frames.lemma_filter_contains_rev(|f: FrameModel| f.step == step, f);
    let i = frames.index_of(f);
    frames.lemma_filter_pred(|f: FrameModel| f.step == step, 0);
    assert(frames[i].step == step);
}

/// All frames of a step count, whatever comes between them: a frame belongs to the frames of a
/// step exactly if it is recorded under that step.
pub proof fn law_all_frames_of_a_step_count(
    frames: Seq<FrameModel>,
    step: Seq<char>,
    frame: FrameModel,
)
    ensures
        diff::step_frames(frames, step).contains(frame) <==> frames.contains(frame) && frame.step
            == step,
{
    let own = |f: FrameModel| f.step == step;
    if diff::step_frames(frames, step).contains(frame) {
        frames.lemma_filter_contains_rev(own, frame);
        let i = diff::step_frames(frames, step).index_of(frame);
        frames.lemma_filter_pred(own, i);
    }
    if frames.contains(frame) && frame.step == step {
        let i = frames.index_of(frame);
        frames.lemma_filter_contains(own, i);
    }
}

/// What is missing from one side is extra on the other: under the same allowances, the reports of
/// a comparison and of the comparison the other way round mirror each other.
pub proof fn law_comparison_mirrors(
    a: Seq<FrameModel>,
    b: Seq<FrameModel>,
    div: Divergence,
    step: Seq<char>,
    method: Seq<char>,
    kind: FrameKind,
    missing: Set<Seq<char>>,
    extra: Set<Seq<char>>,
)
    ensures
        diff::compare_findings(a, b, div).contains(
            FindingModel::MissingNotification { step, method },
        ) <==> diff::compare_findings(b, a, div).contains(
            FindingModel::ExtraNotification { step, method },
        ),
        diff::compare_findings(a, b, div).contains(
            FindingModel::KeyDifference { step, method, kind, missing, extra },
        ) <==> diff::compare_findings(b, a, div).contains(
            FindingModel::KeyDifference { step, method, kind, missing: extra, extra: missing },
        ),
{
    law_missing_notifications(a, b, div, step, method);
    law_extra_notifications(b, a, div, step, method);
    law_key_differences(a, b, div, step, method, kind, missing, extra);
    law_key_differences(b, a, div, step, method, kind, extra, missing);
}

/// Whether everything that `narrow` allows is allowed by `wide` too.
pub open spec fn allows_no_more(narrow: Divergence, wide: Divergence) -> bool {
    &&& forall|method: Seq<char>|
        #![trigger narrow.skipped_methods.contains(method)]
        #![trigger wide.skipped_methods.contains(method)]
        narrow.skipped_methods.contains(method) ==> wide.skipped_methods.contains(method)
    &&& forall|method: Seq<char>|
        #![trigger narrow.skipped_notifications.contains(method)]
        #![trigger wide.skipped_notifications.contains(method)]
        narrow.skipped_notifications.contains(method) ==> wide.skipped_notifications.contains(
            method,
        )
    &&& forall|method: Seq<char>|
        #![trigger narrow.allowed_paths(method)]
        #![trigger wide.allowed_paths(method)]
        narrow.allowed_paths(method).subset_of(wide.allowed_paths(method))
}

/// Whether one finding reports all that another does: the same, or a difference of at least the
/// same keys.
pub open spec fn covers(larger: FindingModel, smaller: FindingModel) -> bool {
    match (larger, smaller) {
        (
            FindingModel::KeyDifference { step, method, kind, missing, extra },
            FindingModel::KeyDifference { step: s, method: m, kind: k, missing: less, extra: few },
        ) => step == s && method == m && kind == k && less.subset_of(missing) && few.subset_of(
            extra,
        ),
        _ => larger == smaller,
    }
}

/// Taking entries off an allowlist hides nothing: whatever is found with the longer one is found
/// with the shorter one too.
pub proof fn law_fewer_exceptions_find_more(
    reference: Seq<FrameModel>,
    target: Seq<FrameModel>,
    narrow: Divergence,
    wide: Divergence,
    finding: FindingModel,
)
    requires
        allows_no_more(narrow, wide),
        diff::compare_findings(reference, target, wide).contains(finding),
    ensures
        exists|other: FindingModel| #[trigger]
            diff::compare_findings(reference, target, narrow).contains(other) && covers(
                other,
                finding,
            ),
{
    let found = diff::compare_findings(reference, target, narrow);
    match finding {
        FindingModel::SchemaError { step, method, kind, message } => {
            law_schema_errors(reference, target, narrow, step, method, kind, message);
            law_schema_errors(reference, target, wide, step, method, kind, message);
            assert(found.contains(finding) && covers(finding, finding));
        },
        FindingModel::UpstreamSchemaError { step, method, kind, message } => {
            law_upstream_errors(reference, target, narrow, step, method, kind, message);
            law_upstream_errors(reference, target, wide, step, method, kind, message);
            assert(found.contains(finding) && covers(finding, finding));
        },
        FindingModel::UnexpectedError { step, method, code, message } => {
            law_unexpected_errors(reference, target, narrow, step, method, code, message);
            law_unexpected_errors(reference, target, wide, step, method, code, message);
            assert(found.contains(finding) && covers(finding, finding));
        },
        FindingModel::MissingResponse { step, method } => {
            law_missing_responses(reference, target, narrow, step, method);
            law_missing_responses(reference, target, wide, step, method);
            assert(found.contains(finding) && covers(finding, finding));
        },
        FindingModel::MissingNotification { step, method } => {
            law_missing_notifications(reference, target, narrow, step, method);
            law_missing_notifications(reference, target, wide, step, method);
            assert(found.contains(finding) && covers(finding, finding));
        },
        FindingModel::ExtraNotification { step, method } => {
            law_extra_notifications(reference, target, narrow, step, method);
            law_extra_notifications(reference, target, wide, step, method);
            assert(found.contains(finding) && covers(finding, finding));
        },
        FindingModel::KeyDifference { step, method, kind, missing, extra } => {
            law_key_differences(reference, target, wide, step, method, kind, missing, extra);
            let r = diff::populated_keys(diff::step_frames(reference, step), method, kind);
            let t = diff::populated_keys(diff::step_frames(target, step), method, kind);
            let more = r.difference(t).difference(narrow.allowed_paths(method));
            let most = t.difference(r).difference(narrow.allowed_paths(method));
            assert(narrow.allowed_paths(method).subset_of(wide.allowed_paths(method)));
            assert(missing.subset_of(more) && extra.subset_of(most));
            if missing != Set::<Seq<char>>::empty() {
                let path = choose|path: Seq<char>| missing.contains(path);
                assert(!(missing =~= Set::<Seq<char>>::empty()));
                assert(more.contains(path));
            } else {
                let path = choose|path: Seq<char>| extra.contains(path);
                assert(!(extra =~= Set::<Seq<char>>::empty()));
                assert(most.contains(path));
            }
            law_key_differences(reference, target, narrow, step, method, kind, more, most);
            let other = FindingModel::KeyDifference {
                step,
                method,
                kind,
                missing: more,
                extra: most,
            };
            assert(found.contains(other) && covers(other, finding));
        },
    }
}

/// The reference itself is allowed nothing: every error, every kind of notification and every key
/// counts.
pub proof fn law_reference_has_no_gaps()
    ensures
        forall|method: Seq<char>|
            !divergence::known_divergence(TargetId::Codex).skipped_methods.contains(method),
        forall|method: Seq<char>|
            !divergence::known_divergence(TargetId::Codex).skipped_notifications.contains(method),
        forall|method: Seq<char>|
            #![trigger divergence::known_divergence(TargetId::Codex).allowed_paths(method)]
            divergence::known_divergence(TargetId::Codex).allowed_paths(method) == Set::<
                Seq<char>,
            >::empty(),
{
    let div = divergence::known_divergence(TargetId::Codex);
    assert forall|method: Seq<char>| #[trigger] div.allowed_paths(method) == Set::<
        Seq<char>,
    >::empty() by {
        assert(div.allowed_paths(method) =~= Set::<Seq<char>>::empty());
    }
}

/// What diverges on every bridge may differ on each of them.
pub proof fn law_common_gaps(target: TargetId, method: Seq<char>)
    requires
        target != TargetId::Codex,
    ensures
        divergence::shape_divergent_responses().contains(method)
            ==> divergence::known_divergence(target).skipped_methods.contains(method),
        divergence::shape_divergent_notifications().contains(method)
            ==> divergence::known_divergence(target).skipped_notifications.contains(method),
{
    lemma_add_contains(
        divergence::own_methods(target),
        divergence::shape_divergent_responses(),
        method,
    );
    lemma_add_contains(
        divergence::own_notifications(target),
        divergence::shape_divergent_notifications(),
        method,
    );
}

} // verus!
