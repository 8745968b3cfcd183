//! Compares what a target said with what the reference said.
//!
//! Three layers of comparison:
//!  - Schema: what the schema checks object to in the target's frames.
//!  - Method presence: methods that succeed on the reference must succeed on the target, except
//!    those that a [`KnownDivergence`] names: the target must answer them, and not with an error.
//!  - Notification pattern: in each step the kinds of notifications must be the same on both
//!    sides, and where both sides sent frames of a method, they must populate the same keys.
use vstd::prelude::*;

use crate::divergence;
use crate::divergence::{Divergence, KnownDivergence};
use crate::key_set::KeySet;
use crate::text;
use crate::text_map::TextMap;
use crate::transcript;
use crate::transcript::{Frame, FrameKind, FrameModel, TargetId, Transcript};

verus! {

/// One way in which a target does not conform.
#[derive(Debug, Clone)]
pub enum Finding {
    /// A frame did not deserialize into its typed form.
    SchemaError { step: String, method: String, kind: FrameKind, message: String },
    /// A frame does not meet the upstream JSON schema.
    UpstreamSchemaError { step: String, method: String, kind: FrameKind, message: String },
    /// A method returned an error on the target but succeeded on the reference, and is not one
    /// that may fail. Where there is no reference, every method counts as succeeding on it.
    UnexpectedError { step: String, method: String, code: i64, message: String },
    /// A method succeeded on the reference in a step, is not one that may fail, and got neither a
    /// response which is no error from the target there, nor an error with a code and a message.
    MissingResponse { step: String, method: String },
    /// The reference sent a kind of notification in a step, and the target did not.
    MissingNotification { step: String, method: String },
    /// The target sent a kind of notification in a step, and the reference did not.
    ExtraNotification { step: String, method: String },
    /// Both sides sent frames of a method in a step, which populate different keys: `missing` only
    /// on the reference, `extra` only on the target.
    KeyDifference {
        step: String,
        method: String,
        kind: FrameKind,
        missing: KeySet,
        extra: KeySet,
    },
}

/// What a [`Finding`] says.
#[verifier::ext_equal]
pub enum FindingModel {
    SchemaError { step: Seq<char>, method: Seq<char>, kind: FrameKind, message: Seq<char> },
    UpstreamSchemaError { step: Seq<char>, method: Seq<char>, kind: FrameKind, message: Seq<char> },
    UnexpectedError { step: Seq<char>, method: Seq<char>, code: i64, message: Seq<char> },
    MissingResponse { step: Seq<char>, method: Seq<char> },
    MissingNotification { step: Seq<char>, method: Seq<char> },
    ExtraNotification { step: Seq<char>, method: Seq<char> },
    KeyDifference {
        step: Seq<char>,
        method: Seq<char>,
        kind: FrameKind,
        missing: Set<Seq<char>>,
        extra: Set<Seq<char>>,
    },
}

impl View for Finding {
    type V = FindingModel;

    open spec fn view(&self) -> FindingModel {
        match *self {
            Finding::SchemaError { step, method, kind, message } => FindingModel::SchemaError {
                step: step@,
                method: method@,
                kind,
                message: message@,
            },
            Finding::UpstreamSchemaError { step, method, kind, message } => {
                FindingModel::UpstreamSchemaError {
                    step: step@,
                    method: method@,
                    kind,
                    message: message@,
                }
            },
            Finding::UnexpectedError { step, method, code, message } => {
                FindingModel::UnexpectedError {
                    step: step@,
                    method: method@,
                    code,
                    message: message@,
                }
            },
            Finding::MissingResponse { step, method } => FindingModel::MissingResponse {
                step: step@,
                method: method@,
            },
            Finding::MissingNotification { step, method } => FindingModel::MissingNotification {
                step: step@,
                method: method@,
            },
            Finding::ExtraNotification { step, method } => FindingModel::ExtraNotification {
                step: step@,
                method: method@,
            },
            Finding::KeyDifference { step, method, kind, missing, extra } => {
                FindingModel::KeyDifference {
                    step: step@,
                    method: method@,
                    kind,
                    missing: missing@,
                    extra: extra@,
                }
            },
        }
    }
}

/// What a list of findings says.
pub open spec fn finding_models(findings: Seq<Finding>) -> Seq<FindingModel> {
    findings.map_values(|f: Finding| f@)
}

/// The outcome of a comparison.
#[derive(Debug, Clone)]
pub struct ConformanceReport {
    pub target: TargetId,
    pub findings: Vec<Finding>,
}

impl View for ConformanceReport {
    type V = Seq<FindingModel>;

    open spec fn view(&self) -> Seq<FindingModel> {
        finding_models(self.findings@)
    }
}

/// The methods that got a response which is no error.
pub open spec fn succeeding(frames: Seq<FrameModel>) -> Set<Seq<char>> {
    Set::new(
        |method: Seq<char>|
            exists|i: int|
                0 <= i < frames.len() && (#[trigger] frames[i]).kind == FrameKind::Response
                    && frames[i].method == method && !frames[i].check.error_response,
    )
}

/// The methods that got an error with a code and a message.
pub open spec fn failing(frames: Seq<FrameModel>) -> Set<Seq<char>> {
    Set::new(
        |method: Seq<char>|
            exists|i: int|
                0 <= i < frames.len() && (#[trigger] frames[i]).kind == FrameKind::Response
                    && frames[i].method == method && frames[i].check.error_code is Some
                    && frames[i].check.error_message is Some,
    )
}

/// Whether an error of `method` is one that is not expected: the method may not fail, and it
/// succeeds on the reference, if there is one.
pub open spec fn unexpected(
    method: Seq<char>,
    skipped: Seq<Seq<char>>,
    reference: Option<Seq<FrameModel>>,
) -> bool {
    !skipped.contains(method) && match reference {
        Some(frames) => succeeding(frames).contains(method),
        None => true,
    }
}

/// What one frame of the target gives rise to by itself, where errors of the methods in
/// `skipped` are allowed.
pub open spec fn frame_findings(
    frame: FrameModel,
    skipped: Seq<Seq<char>>,
    reference: Option<Seq<FrameModel>>,
) -> Seq<FindingModel> {
    let (step, method, kind) = (frame.step, frame.method, frame.kind);
    let typed = match frame.check.deserialize_error {
        Some(message) => seq![FindingModel::SchemaError { step, method, kind, message }],
        None => seq![],
    };
    let upstream = match frame.check.upstream_error {
        Some(message) if !frame.check.error_response => {
            seq![FindingModel::UpstreamSchemaError { step, method, kind, message }]
        },
        _ => seq![],
    };
    let failed = match (frame.check.error_code, frame.check.error_message) {
        (Some(code), Some(message)) if kind == FrameKind::Response && unexpected(
            method,
            skipped,
            reference,
        ) => seq![FindingModel::UnexpectedError { step, method, code, message }],
        _ => seq![],
    };
    typed + upstream + failed
}

/// What the frames of the target give rise to by themselves.
pub open spec fn checked_findings(
    frames: Seq<FrameModel>,
    skipped: Seq<Seq<char>>,
    reference: Option<Seq<FrameModel>>,
) -> Seq<FindingModel> {
    frames.flat_map(|frame: FrameModel| frame_findings(frame, skipped, reference))
}

/// The steps that frames are grouped by: all that have a name.
pub open spec fn steps(frames: Seq<FrameModel>) -> Set<Seq<char>> {
    Set::new(
        |step: Seq<char>|
            step.len() > 0 && exists|i: int|
                0 <= i < frames.len() && (#[trigger] frames[i]).step == step,
    )
}

/// The frames of `step`, in order, whatever comes between them.
pub open spec fn step_frames(frames: Seq<FrameModel>, step: Seq<char>) -> Seq<FrameModel> {
    frames.filter(|f: FrameModel| f.step == step)
}

/// The methods with frames of `kind`.
pub open spec fn sent(frames: Seq<FrameModel>, kind: FrameKind) -> Set<Seq<char>> {
    Set::new(
        |method: Seq<char>|
            exists|i: int|
                0 <= i < frames.len() && (#[trigger] frames[i]).kind == kind && frames[i].method
                    == method,
    )
}

/// The methods with frames of `kind` that populate any key.
pub open spec fn populated(frames: Seq<FrameModel>, kind: FrameKind) -> Set<Seq<char>> {
    Set::new(
        |method: Seq<char>|
            exists|i: int|
                0 <= i < frames.len() && (#[trigger] frames[i]).kind == kind && frames[i].method
                    == method && frames[i].check.fingerprint != Set::<Seq<char>>::empty(),
    )
}

/// The keys that the frames of `kind` of `method` populate, taken together.
pub open spec fn populated_keys(
    frames: Seq<FrameModel>,
    method: Seq<char>,
    kind: FrameKind,
) -> Set<Seq<char>> {
    Set::new(
        |path: Seq<char>|
            exists|i: int|
                0 <= i < frames.len() && (#[trigger] frames[i]).kind == kind && frames[i].method
                    == method && frames[i].check.fingerprint.contains(path),
    )
}

/// Whether the keys of frames of `kind` of `method` are not compared at all.
pub open spec fn exempt(div: Divergence, method: Seq<char>, kind: FrameKind) -> bool {
    match kind {
        FrameKind::Response => div.skipped_methods.contains(method),
        FrameKind::Notification => div.skipped_notifications.contains(method),
    }
}

/// How the keys of one method's frames differ, where `r` are those of the reference and `t`
/// those of the target.
pub open spec fn key_findings(
    step: Seq<char>,
    method: Seq<char>,
    kind: FrameKind,
    r: Set<Seq<char>>,
    t: Set<Seq<char>>,
    div: Divergence,
) -> Seq<FindingModel> {
    let missing = r.difference(t).difference(div.allowed_paths(method));
    let extra = t.difference(r).difference(div.allowed_paths(method));
    if exempt(div, method, kind) || (missing == Set::<Seq<char>>::empty() && extra == Set::<
        Seq<char>,
    >::empty()) {
        seq![]
    } else {
        seq![FindingModel::KeyDifference { step, method, kind, missing, extra }]
    }
}

/// How the keys of the frames of `kind` of `method` differ, where both sides sent any.
pub open spec fn kind_findings(
    step: Seq<char>,
    method: Seq<char>,
    kind: FrameKind,
    r: Seq<FrameModel>,
    t: Seq<FrameModel>,
    div: Divergence,
) -> Seq<FindingModel> {
    if sent(r, kind).contains(method) && sent(t, kind).contains(method) {
        key_findings(
            step,
            method,
            kind,
            populated_keys(r, method, kind),
            populated_keys(t, method, kind),
            div,
        )
    } else {
        seq![]
    }
}

/// How the keys of the frames of `method` differ, responses before notifications.
pub open spec fn method_findings(
    step: Seq<char>,
    method: Seq<char>,
    r: Seq<FrameModel>,
    t: Seq<FrameModel>,
    div: Divergence,
) -> Seq<FindingModel> {
    kind_findings(step, method, FrameKind::Response, r, t, div) + kind_findings(
        step,
        method,
        FrameKind::Notification,
        r,
        t,
        div,
    )
}

/// The methods that succeed in `r` and neither succeed in `t` nor get an error there that has a
/// code and a message, without those that may fail, in order.
pub open spec fn unanswered(
    r: Seq<FrameModel>,
    t: Seq<FrameModel>,
    div: Divergence,
) -> Seq<Seq<char>> {
    text::sorted(
        succeeding(r).difference(succeeding(t)).difference(failing(t)).difference(
            div.skipped_methods.to_set(),
        ),
    )
}

/// The notification kinds of `a` that `b` lacks, without those that may differ, in order.
pub open spec fn lacking(
    a: Seq<FrameModel>,
    b: Seq<FrameModel>,
    div: Divergence,
) -> Seq<Seq<char>> {
    text::sorted(
        sent(a, FrameKind::Notification).difference(sent(b, FrameKind::Notification)).difference(
            div.skipped_notifications.to_set(),
        ),
    )
}

/// All methods whose frames populate any key on either side, in order.
pub open spec fn compared_methods(r: Seq<FrameModel>, t: Seq<FrameModel>) -> Seq<Seq<char>> {
    text::sorted(
        populated(r, FrameKind::Response).union(populated(r, FrameKind::Notification)).union(
            populated(t, FrameKind::Response),
        ).union(populated(t, FrameKind::Notification)),
    )
}

/// How the target's frames of one step, `t`, differ from the reference's, `r`: methods without a
/// response, then kinds of notifications that are missing, then those that are extra, then
/// differences of keys by method.
pub open spec fn step_findings(
    step: Seq<char>,
    r: Seq<FrameModel>,
    t: Seq<FrameModel>,
    div: Divergence,
) -> Seq<FindingModel> {
    unanswered(r, t, div).map_values(
        |method: Seq<char>| FindingModel::MissingResponse { step, method },
    ) + lacking(r, t, div).map_values(
        |method: Seq<char>| FindingModel::MissingNotification { step, method },
    ) + lacking(t, r, div).map_values(
        |method: Seq<char>| FindingModel::ExtraNotification { step, method },
    ) + compared_methods(r, t).flat_map(
        |method: Seq<char>| method_findings(step, method, r, t, div),
    )
}

/// How the frames of the target differ from those of the reference, step by step in the order of
/// the steps' names.
pub open spec fn pattern_findings(
    reference: Seq<FrameModel>,
    target: Seq<FrameModel>,
    div: Divergence,
) -> Seq<FindingModel> {
    text::sorted(steps(reference).union(steps(target))).flat_map(
        |step: Seq<char>|
            step_findings(step, step_frames(reference, step), step_frames(target, step), div),
    )
}

/// Everything that a comparison finds.
pub open spec fn compare_findings(
    reference: Seq<FrameModel>,
    target: Seq<FrameModel>,
    div: Divergence,
) -> Seq<FindingModel> {
    checked_findings(target, div.skipped_methods, Some(reference)) + pattern_findings(
        reference,
        target,
        div,
    )
}

impl ConformanceReport {
    /// Whether nothing was found.
    pub fn is_clean(&self) -> (r: bool)
        ensures
            r == (self@.len() == 0),
    {
        self.findings.len() == 0
    }
}

/// One more finding adds what it says.
proof fn lemma_findings_push(findings: Seq<Finding>, f: Finding)
    ensures
        finding_models(findings.push(f)) == finding_models(findings).push(f@),
{
    assert(finding_models(findings.push(f)) =~= finding_models(findings).push(f@));
}

/// Whether `method` got a response which is no error.
fn succeeds(t: &Transcript, method: &str) -> (r: bool)
    ensures
        r == succeeding(t@).contains(method@),
{
    let mut i: usize = 0;
    while i < t.frames.len()
        invariant
            i <= t@.len(),
            t@ == transcript::models(t.frames@),
            forall|k: int|
                0 <= k < i && (#[trigger] t@[k]).kind == FrameKind::Response && t@[k].method
                    == method@ ==> t@[k].check.error_response,
        decreases t@.len() - i,
    {
        let f: &Frame = &t.frames[i];
        assert(t@[i as int] == f@);
        if f.kind == FrameKind::Response && !f.check.error_response && text::same(
            f.method.as_str(),
            method,
        ) {
            return true;
        }
        i = i + 1;
    }
    false
}

/// What an optional transcript says.
pub open spec fn optional_frames(t: Option<&Transcript>) -> Option<Seq<FrameModel>> {
    match t {
        Some(t) => Some(t@),
        None => None,
    }
}

/// Adds what `frame` gives rise to by itself.
fn check_frame(
    frame: &Frame,
    div: &KnownDivergence,
    reference: Option<&Transcript>,
    findings: &mut Vec<Finding>,
)
    ensures
        finding_models(final(findings)@) == finding_models(old(findings)@) + frame_findings(
            frame@,
            div@.skipped_methods,
            optional_frames(reference),
        ),
{
    let ghost start = finding_models(findings@);
    // A stub that answers with nothing is what this layer is to surface, so no allowlist
    // applies here.
    if let Some(message) = &frame.check.deserialize_error {
        findings.push(
            Finding::SchemaError {
                step: frame.step.clone(),
                method: frame.method.clone(),
                kind: frame.kind,
                message: message.clone(),
            },
        );
    }
    let ghost typed = match frame@.check.deserialize_error {
        Some(message) => seq![
            FindingModel::SchemaError {
                step: frame@.step,
                method: frame@.method,
                kind: frame.kind,
                message,
            },
        ],
        None => seq![],
    };
    assert(finding_models(findings@) =~= start + typed);
    // The result of an error response is null, where the schema expects a payload.
    if !frame.check.error_response {
        if let Some(message) = &frame.check.upstream_error {
            findings.push(
                Finding::UpstreamSchemaError {
                    step: frame.step.clone(),
                    method: frame.method.clone(),
                    kind: frame.kind,
                    message: message.clone(),
                },
            );
        }
    }
    let ghost upstream = match frame@.check.upstream_error {
        Some(message) if !frame.check.error_response => {
            seq![
                FindingModel::UpstreamSchemaError {
                    step: frame@.step,
                    method: frame@.method,
                    kind: frame.kind,
                    message,
                },
            ]
        },
        _ => seq![],
    };
    assert(finding_models(findings@) =~= start + typed + upstream);
    if frame.kind == FrameKind::Response {
        if let (Some(code), Some(message)) = (
            &frame.check.error_code,
            &frame.check.error_message,
        ) {
            let succeeds_there = match reference {
                Some(reference) => succeeds(reference, frame.method.as_str()),
                None => true,
            };
            if succeeds_there && !text::listed(&div.skipped_methods, frame.method.as_str()) {
                findings.push(
                    Finding::UnexpectedError {
                        step: frame.step.clone(),
                        method: frame.method.clone(),
                        code: *code,
                        message: message.clone(),
                    },
                );
            }
        }
    }
    assert(finding_models(findings@) =~= start + frame_findings(
        frame@,
        div@.skipped_methods,
        optional_frames(reference),
    ));
}

/// What the frames of `transcript` give rise to by themselves.
fn check_frames(
    transcript: &Transcript,
    div: &KnownDivergence,
    reference: Option<&Transcript>,
) -> (findings: Vec<Finding>)
    ensures
        finding_models(findings@) == checked_findings(
            transcript@,
            div@.skipped_methods,
            optional_frames(reference),
        ),
{
    let ghost frames = optional_frames(reference);
    let ghost f = |frame: FrameModel| frame_findings(frame, div@.skipped_methods, frames);
    let mut findings: Vec<Finding> = Vec::new();
    let mut i: usize = 0;
    assert(finding_models(findings@) =~= transcript@.take(0).flat_map(f));
    while i < transcript.frames.len()
        invariant
            i <= transcript@.len(),
            transcript@ == transcript::models(transcript.frames@),
            frames == optional_frames(reference),
            f == (|frame: FrameModel| frame_findings(frame, div@.skipped_methods, frames)),
            finding_models(findings@) == transcript@.take(i as int).flat_map(f),
        decreases transcript@.len() - i,
    {
        check_frame(&transcript.frames[i], div, reference, &mut findings);
        proof {
            transcript@.lemma_flat_map_take_append(f, i as int);
        }
        i = i + 1;
    }
    assert(transcript@.take(i as int) =~= transcript@);
    findings
}

/// Finds what the schema checks and the method layer object to, without a reference.
pub fn schema_only(transcript: &Transcript) -> (findings: Vec<Finding>)
    ensures
        finding_models(findings@) == checked_findings(
            transcript@,
            divergence::known_divergence(transcript.target).skipped_methods,
            None,
        ),
{
    let div = KnownDivergence::for_target(transcript.target);
    check_frames(transcript, &div, None)
}

/// One more frame belongs to its own step only.
proof fn lemma_step_frames(frames: Seq<FrameModel>, i: int, step: Seq<char>)
    requires
        0 <= i < frames.len(),
    ensures
        step_frames(frames.take(i + 1), step) == if frames[i].step == step {
            step_frames(frames.take(i), step).push(frames[i])
        } else {
            step_frames(frames.take(i), step)
        },
{
    reveal(Seq::filter);
    let next = frames.take(i + 1);
    assert(next.drop_last() =~= frames.take(i));
    assert(next.last() == frames[i]);
}

/// One more frame brings its own step, if that has a name.
proof fn lemma_steps(frames: Seq<FrameModel>, i: int, step: Seq<char>)
    requires
        0 <= i < frames.len(),
    ensures
        steps(frames.take(i + 1)).contains(step) <==> steps(frames.take(i)).contains(step) || (
        frames[i].step == step && step.len() > 0),
{
    let (now, next) = (frames.take(i), frames.take(i + 1));
    assert(next[i] == frames[i]);
    if steps(now).contains(step) {
        let k = choose|k: int| 0 <= k < now.len() && (#[trigger] now[k]).step == step;
        assert(next[k].step == step);
    }
    if steps(next).contains(step) {
        let k = choose|k: int| 0 <= k < next.len() && (#[trigger] next[k]).step == step;
        if k < i {
            assert(now[k].step == step);
        }
    }
}

/// The frames at some positions.
pub open spec fn picked(frames: Seq<FrameModel>, positions: Seq<usize>) -> Seq<FrameModel> {
    positions.map_values(|i: usize| frames[i as int])
}

/// Whether `positions` are, in order, those of the frames of `step` among `frames`.
pub open spec fn locates(
    positions: Seq<usize>,
    frames: Seq<FrameModel>,
    step: Seq<char>,
) -> bool {
    &&& forall|a: int, b: int|
        0 <= a < b < positions.len() ==> #[trigger] positions[a] < #[trigger] positions[b]
    &&& forall|a: int|
        0 <= a < positions.len() ==> #[trigger] positions[a] < frames.len()
            && frames[positions[a] as int].step == step
    &&& forall|i: usize|
        i < frames.len() && (#[trigger] frames[i as int]).step == step ==> positions.contains(i)
    &&& picked(frames, positions) == step_frames(frames, step)
}

/// The positions of a step, with one more frame.
proof fn lemma_locates_push(
    positions: Seq<usize>,
    frames: Seq<FrameModel>,
    i: usize,
    step: Seq<char>,
)
    requires
        i < frames.len(),
        locates(positions, frames.take(i as int), step),
    ensures
        frames[i as int].step == step ==> locates(positions.push(i), frames.take(i + 1), step),
        frames[i as int].step != step ==> locates(positions, frames.take(i + 1), step),
{
    let (now, next) = (frames.take(i as int), frames.take(i + 1));
    lemma_step_frames(frames, i as int, step);
    assert forall|k: usize| k < i implies #[trigger] now[k as int] == next[k as int] by {}
    assert(next[i as int] == frames[i as int]);
    if frames[i as int].step == step {
        let more = positions.push(i);
        assert forall|k: usize|
            k < next.len() && (#[trigger] next[k as int]).step == step implies more.contains(k) by {
            if k < i {
                assert(now[k as int].step == step);
                let a = positions.index_of(k);
                assert(more[a] == k);
            } else {
                assert(more[positions.len() as int] == k);
            }
        }
        assert(picked(next, more) =~= picked(now, positions).push(frames[i as int]));
    } else {
        assert forall|k: usize|
            k < next.len() && (#[trigger] next[k as int]).step
                == step implies positions.contains(k) by {
            assert(now[k as int].step == step);
        }
        assert(picked(next, positions) =~= picked(now, positions));
    }
}

/// A step that no frame belongs to has no positions.
proof fn lemma_locates_none(frames: Seq<FrameModel>, step: Seq<char>)
    requires
        forall|i: int| 0 <= i < frames.len() ==> (#[trigger] frames[i]).step != step,
    ensures
        locates(Seq::<usize>::empty(), frames, step),
{
    lemma_no_step_frames(frames, step);
    assert(picked(frames, Seq::<usize>::empty()) =~= Seq::<FrameModel>::empty());
}

/// Where the frames of each step stand.
pub fn group_by_step(t: &Transcript) -> (r: TextMap<Vec<usize>>)
    ensures
        r@.dom() == steps(t@),
        forall|step: Seq<char>| #[trigger]
            r@.contains_key(step) ==> locates(r@[step]@, t@, step),
{
    let ghost all = t@;
    let mut out: TextMap<Vec<usize>> = TextMap::new();
    let mut i: usize = 0;
    assert(out@.dom() =~= steps(all.take(0)));
    while i < t.frames.len()
        invariant
            all == t@,
            t@ == transcript::models(t.frames@),
            i <= all.len(),
            out@.dom() == steps(all.take(i as int)),
            forall|step: Seq<char>| #[trigger]
                out@.contains_key(step) ==> locates(out@[step]@, all.take(i as int), step),
        decreases all.len() - i,
    {
        let f: &Frame = &t.frames[i];
        let ghost before = out@;
        let ghost (now, next) = (all.take(i as int), all.take(i + 1));
        assert(f@ == all[i as int]);
        if !f.step.as_str().is_empty() {
            let mut positions: Vec<usize> = match out.get(f.step.as_str()) {
                Some(positions) => positions.clone(),
                None => Vec::new(),
            };
            proof {
                if before.contains_key(f.step@) {
                    assert(positions@ =~= before[f.step@]@);
                } else {
                    assert(!steps(now).contains(f.step@));
                    lemma_locates_none(now, f.step@);
                    assert(positions@ =~= Seq::<usize>::empty());
                }
                lemma_locates_push(positions@, all, i, f.step@);
            }
            positions.push(i);
            out = out.insert(f.step.clone(), positions);
        }
        proof {
            assert forall|step: Seq<char>| out@.contains_key(step) <==> steps(next).contains(
                step,
            ) by {
                lemma_steps(all, i as int, step);
                assert(before.contains_key(step) <==> steps(now).contains(step));
            }
            assert(out@.dom() =~= steps(next));
            assert forall|step: Seq<char>| #[trigger] out@.contains_key(step) implies locates(
                out@[step]@,
                next,
                step,
            ) by {
                if step != f.step@ {
                    assert(before.contains_key(step));
                    lemma_locates_push(before[step]@, all, i, step);
                } else if f.step@.len() == 0 {
                    assert(before.contains_key(step));
                    assert(steps(now).contains(step));
                }
            }
        }
        i = i + 1;
    }
    assert(all.take(i as int) =~= all);
    out
}

/// The frames that `groups` gives for `step`, or none.
fn frames_of<'a>(
    t: &'a Transcript,
    groups: &TextMap<Vec<usize>>,
    step: &str,
) -> (r: Vec<&'a Frame>)
    requires
        groups@.dom() == steps(t@),
        step@.len() > 0,
        forall|step: Seq<char>| #[trigger]
            groups@.contains_key(step) ==> locates(groups@[step]@, t@, step),
    ensures
        transcript::borrowed(r@) == step_frames(t@, step@),
{
    let mut r: Vec<&'a Frame> = Vec::new();
    match groups.get(step) {
        Some(positions) => {
            assert(groups@.contains_key(step@));
            let ghost own = picked(t@, positions@);
            let mut i: usize = 0;
            assert(transcript::borrowed(r@) =~= own.take(0));
            while i < positions.len()
                invariant
                    own == picked(t@, positions@),
                    t@ == transcript::models(t.frames@),
                    locates(positions@, t@, step@),
                    i <= positions@.len(),
                    transcript::borrowed(r@) == own.take(i as int),
                decreases positions@.len() - i,
            {
                let ghost before = r@;
                let at: usize = positions[i];
                r.push(&t.frames[at]);
                assert(transcript::borrowed(r@) =~= transcript::borrowed(before).push(
                    own[i as int],
                ));
                assert(transcript::borrowed(r@) =~= own.take(i + 1));
                i = i + 1;
            }
            assert(own.take(i as int) =~= own);
        },
        None => {
            assert(!steps(t@).contains(step@));
            proof {
                lemma_no_step_frames(t@, step@);
            }
            assert(transcript::borrowed(r@) =~= step_frames(t@, step@));
        },
    }
    r
}

/// A step that no frame belongs to has no frames.
proof fn lemma_no_step_frames(frames: Seq<FrameModel>, step: Seq<char>)
    requires
        forall|i: int| 0 <= i < frames.len() ==> (#[trigger] frames[i]).step != step,
    ensures
        step_frames(frames, step) == Seq::<FrameModel>::empty(),
    decreases frames.len(),
{
    reveal(Seq::filter);
    if frames.len() > 0 {
        let rest = frames.drop_last();
        assert forall|i: int| 0 <= i < rest.len() implies (#[trigger] rest[i]).step != step by {
            assert(rest[i] == frames[i]);
        }
        lemma_no_step_frames(rest, step);
        assert(frames[frames.len() - 1].step != step);
    }
}

/// The methods with frames of `kind`.
fn methods_sent(frames: &[&Frame], kind: FrameKind) -> (r: KeySet)
    ensures
        r@ == sent(transcript::borrowed(frames@), kind),
{
    let ghost all = transcript::borrowed(frames@);
    let mut r = KeySet::new();
    let mut i: usize = 0;
    assert(r@ =~= sent(all.take(0), kind));
    while i < frames.len()
        invariant
            all == transcript::borrowed(frames@),
            i <= all.len(),
            r@ == sent(all.take(i as int), kind),
        decreases all.len() - i,
    {
        let f: &Frame = frames[i];
        let ghost (now, next) = (all.take(i as int), all.take(i + 1));
        assert(next =~= now.push(f@));
        if f.kind == kind {
            r.insert(f.method.clone());
        }
        proof {
            assert forall|m: Seq<char>| r@.contains(m) <==> sent(next, kind).contains(m) by {
                if sent(now, kind).contains(m) {
                    let k = choose|k: int|
                        0 <= k < now.len() && (#[trigger] now[k]).kind == kind && now[k].method
                            == m;
                    assert(next[k] == now[k]);
                }
                if sent(next, kind).contains(m) {
                    let k = choose|k: int|
                        0 <= k < next.len() && (#[trigger] next[k]).kind == kind && next[k].method
                            == m;
                    if k < i {
                        assert(now[k] == next[k]);
                    }
                }
                assert(next[i as int] == f@);
            }
            assert(r@ =~= sent(next, kind));
        }
        i = i + 1;
    }
    assert(all.take(i as int) =~= all);
    r
}

/// The methods that got a response which is no error.
fn methods_succeeding(frames: &[&Frame]) -> (r: KeySet)
    ensures
        r@ == succeeding(transcript::borrowed(frames@)),
{
    let ghost all = transcript::borrowed(frames@);
    let mut r = KeySet::new();
    let mut i: usize = 0;
    assert(r@ =~= succeeding(all.take(0)));
    while i < frames.len()
        invariant
            all == transcript::borrowed(frames@),
            i <= all.len(),
            r@ == succeeding(all.take(i as int)),
        decreases all.len() - i,
    {
        let f: &Frame = frames[i];
        let ghost (now, next) = (all.take(i as int), all.take(i + 1));
        assert(next =~= now.push(f@));
        if f.kind == FrameKind::Response && !f.check.error_response {
            r.insert(f.method.clone());
        }
        proof {
            assert forall|m: Seq<char>| r@.contains(m) <==> succeeding(next).contains(m) by {
                if succeeding(now).contains(m) {
                    let k = choose|k: int|
                        0 <= k < now.len() && (#[trigger] now[k]).kind == FrameKind::Response
                            && now[k].method == m && !now[k].check.error_response;
                    assert(next[k] == now[k]);
                }
                if succeeding(next).contains(m) {
                    let k = choose|k: int|
                        0 <= k < next.len() && (#[trigger] next[k]).kind == FrameKind::Response
                            && next[k].method == m && !next[k].check.error_response;
                    if k < i {
                        assert(now[k] == next[k]);
                    }
                }
                assert(next[i as int] == f@);
            }
            assert(r@ =~= succeeding(next));
        }
        i = i + 1;
    }
    assert(all.take(i as int) =~= all);
    r
}

/// The methods that got an error with a code and a message.
fn methods_failing(frames: &[&Frame]) -> (r: KeySet)
    ensures
        r@ == failing(transcript::borrowed(frames@)),
{
    let ghost all = transcript::borrowed(frames@);
    let mut r = KeySet::new();
    let mut i: usize = 0;
    assert(r@ =~= failing(all.take(0)));
    while i < frames.len()
        invariant
            all == transcript::borrowed(frames@),
            i <= all.len(),
            r@ == failing(all.take(i as int)),
        decreases all.len() - i,
    {
        let f: &Frame = frames[i];
        let ghost (now, next) = (all.take(i as int), all.take(i + 1));
        assert(next =~= now.push(f@));
        if f.kind == FrameKind::Response && f.check.error_code.is_some()
            && f.check.error_message.is_some() {
            r.insert(f.method.clone());
        }
        proof {
            assert forall|m: Seq<char>| r@.contains(m) <==> failing(next).contains(m) by {
                if failing(now).contains(m) {
                    let k = choose|k: int|
                        0 <= k < now.len() && (#[trigger] now[k]).kind == FrameKind::Response
                            && now[k].method == m && now[k].check.error_code is Some
                            && now[k].check.error_message is Some;
                    assert(next[k] == now[k]);
                }
                if failing(next).contains(m) {
                    let k = choose|k: int|
                        0 <= k < next.len() && (#[trigger] next[k]).kind == FrameKind::Response
                            && next[k].method == m && next[k].check.error_code is Some
                            && next[k].check.error_message is Some;
                    if k < i {
                        assert(now[k] == next[k]);
                    }
                }
                assert(next[i as int] == f@);
            }
            assert(r@ =~= failing(next));
        }
        i = i + 1;
    }
    assert(all.take(i as int) =~= all);
    r
}

/// The keys that the frames of one step populate, by method and kind.
pub struct Fingerprints {
    pub responses: TextMap<KeySet>,
    pub notifications: TextMap<KeySet>,
}

/// What `groups` holds for `method`.
pub open spec fn keys_in(groups: TextMap<KeySet>, method: Seq<char>) -> Set<Seq<char>> {
    if groups@.contains_key(method) {
        groups@[method]@
    } else {
        Set::empty()
    }
}

/// `groups` holds the keys that the frames of `kind` populate, by method.
pub open spec fn groups_keys(
    groups: TextMap<KeySet>,
    frames: Seq<FrameModel>,
    kind: FrameKind,
) -> bool {
    &&& groups@.dom() == populated(frames, kind)
    &&& forall|method: Seq<char>| #[trigger]
        keys_in(groups, method) == populated_keys(frames, method, kind)
}

impl Fingerprints {
    /// These are the keys that `frames` populate.
    pub open spec fn describes(self, frames: Seq<FrameModel>) -> bool {
        &&& groups_keys(self.responses, frames, FrameKind::Response)
        &&& groups_keys(self.notifications, frames, FrameKind::Notification)
    }

    /// The methods that populate any key.
    fn methods(&self, Ghost(frames): Ghost<Seq<FrameModel>>) -> (r: KeySet)
        requires
            self.describes(frames),
        ensures
            r@ == populated(frames, FrameKind::Response).union(
                populated(frames, FrameKind::Notification),
            ),
    {
        let mut r = self.responses.keys();
        r.extend(&self.notifications.keys());
        r
    }

    /// The keys that frames of `kind` of `method` populate.
    fn keys(
        &self,
        method: &str,
        kind: FrameKind,
        Ghost(frames): Ghost<Seq<FrameModel>>,
    ) -> (r: KeySet)
        requires
            self.describes(frames),
        ensures
            r@ == populated_keys(frames, method@, kind),
    {
        let groups = match kind {
            FrameKind::Response => &self.responses,
            FrameKind::Notification => &self.notifications,
        };
        assert(keys_in(*groups, method@) == populated_keys(frames, method@, kind));
        match groups.get(method) {
            Some(keys) => keys.clone(),
            None => KeySet::new(),
        }
    }
}

/// Extends the keys of one kind by those of one more frame.
fn add_fingerprint(
    groups: TextMap<KeySet>,
    frame: &Frame,
    Ghost(frames): Ghost<Seq<FrameModel>>,
) -> (r: TextMap<KeySet>)
    requires
        groups_keys(groups, frames, frame.kind),
        frame@.check.fingerprint != Set::<Seq<char>>::empty(),
    ensures
        groups_keys(r, frames.push(frame@), frame.kind),
{
    let ghost method = frame@.method;
    let mut keys = match groups.get(frame.method.as_str()) {
        Some(keys) => keys.clone(),
        None => KeySet::new(),
    };
    assert(keys@ == keys_in(groups, method));
    keys.extend(&frame.check.fingerprint);
    let r = groups.insert(frame.method.clone(), keys);
    proof {
        let next = frames.push(frame@);
        assert forall|m: Seq<char>| populated(next, frame.kind).contains(m) <==> populated(
            frames,
            frame.kind,
        ).contains(m) || m == method by {
            lemma_populated_push(frames, frame@, frame.kind, m);
        }
        assert(r@.dom() =~= populated(next, frame.kind));
        assert forall|m: Seq<char>| #[trigger] keys_in(r, m) == populated_keys(
            next,
            m,
            frame.kind,
        ) by {
            lemma_populated_keys_push(frames, frame@, frame.kind, m);
            assert(keys_in(groups, m) == populated_keys(frames, m, frame.kind));
        }
    }
    r
}

/// One more frame counts for its own kind and method, if it populates any key.
proof fn lemma_populated_push(
    frames: Seq<FrameModel>,
    frame: FrameModel,
    kind: FrameKind,
    method: Seq<char>,
)
    ensures
        populated(frames.push(frame), kind).contains(method) <==> populated(frames, kind).contains(
            method,
        ) || (frame.kind == kind && frame.method == method && frame.check.fingerprint != Set::<
            Seq<char>,
        >::empty()),
{
    let next = frames.push(frame);
    assert(next[frames.len() as int] == frame);
    if populated(frames, kind).contains(method) {
        let k = choose|k: int|
            0 <= k < frames.len() && (#[trigger] frames[k]).kind == kind && frames[k].method
                == method && frames[k].check.fingerprint != Set::<Seq<char>>::empty();
        assert(next[k] == frames[k]);
    }
    if populated(next, kind).contains(method) {
        let k = choose|k: int|
            0 <= k < next.len() && (#[trigger] next[k]).kind == kind && next[k].method == method
                && next[k].check.fingerprint != Set::<Seq<char>>::empty();
        if k < frames.len() {
            assert(next[k] == frames[k]);
        }
    }
}

/// One more frame adds its keys to those of its own kind and method.
proof fn lemma_populated_keys_push(
    frames: Seq<FrameModel>,
    frame: FrameModel,
    kind: FrameKind,
    method: Seq<char>,
)
    ensures
        populated_keys(frames.push(frame), method, kind) == if frame.kind == kind && frame.method
            == method {
            populated_keys(frames, method, kind).union(frame.check.fingerprint)
        } else {
            populated_keys(frames, method, kind)
        },
{
    let next = frames.push(frame);
    let before = populated_keys(frames, method, kind);
    let after = populated_keys(next, method, kind);
    let own = frame.kind == kind && frame.method == method;
    assert forall|p: Seq<char>|
        after.contains(p) <==> before.contains(p) || (own && frame.check.fingerprint.contains(p)) by {
        assert(next[frames.len() as int] == frame);
        if before.contains(p) {
            let k = choose|k: int|
                0 <= k < frames.len() && (#[trigger] frames[k]).kind == kind && frames[k].method
                    == method && frames[k].check.fingerprint.contains(p);
            assert(next[k] == frames[k]);
        }
        if after.contains(p) {
            let k = choose|k: int|
                0 <= k < next.len() && (#[trigger] next[k]).kind == kind && next[k].method == method
                    && next[k].check.fingerprint.contains(p);
            if k < frames.len() {
                assert(next[k] == frames[k]);
            }
        }
    }
    if own {
        assert(after =~= before.union(frame.check.fingerprint));
    } else {
        assert(after =~= before);
    }
}

/// A frame of another kind, or one that populates no key, changes nothing.
proof fn lemma_groups_keep(
    groups: TextMap<KeySet>,
    frames: Seq<FrameModel>,
    frame: FrameModel,
    kind: FrameKind,
)
    requires
        groups_keys(groups, frames, kind),
        frame.kind != kind || frame.check.fingerprint == Set::<Seq<char>>::empty(),
    ensures
        groups_keys(groups, frames.push(frame), kind),
{
    let next = frames.push(frame);
    assert forall|m: Seq<char>| populated(next, kind).contains(m) <==> populated(
        frames,
        kind,
    ).contains(m) by {
        lemma_populated_push(frames, frame, kind, m);
    }
    assert(populated(next, kind) =~= populated(frames, kind));
    assert forall|m: Seq<char>| #[trigger] keys_in(groups, m) == populated_keys(next, m, kind) by {
        lemma_populated_keys_push(frames, frame, kind, m);
        assert(populated_keys(next, m, kind) =~= populated_keys(frames, m, kind));
    }
}

/// Unites the keys that `frames` populate, by method and kind.
pub fn group_fingerprints(frames: &[&Frame]) -> (r: Fingerprints)
    ensures
        r.describes(transcript::borrowed(frames@)),
{
    let ghost all = transcript::borrowed(frames@);
    let mut responses: TextMap<KeySet> = TextMap::new();
    let mut notifications: TextMap<KeySet> = TextMap::new();
    let mut i: usize = 0;
    proof {
        let none = all.take(0);
        assert(none =~= Seq::empty());
        lemma_no_groups(responses, FrameKind::Response);
        lemma_no_groups(notifications, FrameKind::Notification);
    }
    while i < frames.len()
        invariant
            all == transcript::borrowed(frames@),
            i <= all.len(),
            groups_keys(responses, all.take(i as int), FrameKind::Response),
            groups_keys(notifications, all.take(i as int), FrameKind::Notification),
        decreases all.len() - i,
    {
        let f: &Frame = frames[i];
        let ghost now = all.take(i as int);
        assert(all.take(i + 1) =~= now.push(f@));
        proof {
            if f.kind != FrameKind::Response || f@.check.fingerprint == Set::<Seq<char>>::empty() {
                lemma_groups_keep(responses, now, f@, FrameKind::Response);
            }
            if f.kind != FrameKind::Notification || f@.check.fingerprint == Set::<
                Seq<char>,
            >::empty() {
                lemma_groups_keep(notifications, now, f@, FrameKind::Notification);
            }
        }
        if !f.check.fingerprint.is_empty() {
            match f.kind {
                FrameKind::Response => {
                    responses = add_fingerprint(responses, f, Ghost(now));
                },
                FrameKind::Notification => {
                    notifications = add_fingerprint(notifications, f, Ghost(now));
                },
            }
        }
        i = i + 1;
    }
    assert(all.take(i as int) =~= all);
    Fingerprints { responses, notifications }
}

/// Without frames there are no keys.
proof fn lemma_no_groups(groups: TextMap<KeySet>, kind: FrameKind)
    requires
        groups@ == Map::<Seq<char>, KeySet>::empty(),
    ensures
        groups_keys(groups, Seq::<FrameModel>::empty(), kind),
{
    let none = Seq::<FrameModel>::empty();
    assert(groups@.dom() =~= populated(none, kind));
    assert forall|m: Seq<char>| #[trigger] keys_in(groups, m) == populated_keys(none, m, kind) by {
        assert(keys_in(groups, m) =~= populated_keys(none, m, kind));
    }
}

/// The key paths that are not compared in frames of `method`.
fn allowed_paths(div: &KnownDivergence, method: &str) -> (r: KeySet)
    ensures
        r@ == div@.allowed_paths(method@),
{
    let ghost table = div@.field_paths;
    let ghost part = |n: int| Divergence { field_paths: table.take(n), ..div@ };
    let mut r = KeySet::new();
    let mut i: usize = 0;
    assert(r@ =~= part(0).allowed_paths(method@));
    while i < div.field_path_divergences.len()
        invariant
            table == div@.field_paths,
            part == (|n: int| Divergence { field_paths: table.take(n), ..div@ }),
            i <= table.len(),
            r@ == part(i as int).allowed_paths(method@),
        decreases table.len() - i,
    {
        let entry: &(&'static str, Vec<&'static str>) = &div.field_path_divergences[i];
        let ghost (now, next) = (part(i as int).field_paths, part(i + 1).field_paths);
        assert(next =~= now.push(table[i as int]));
        assert(table[i as int] == (entry.0@, text::slice_views(entry.1@)));
        if text::same(entry.0, method) {
            r.extend(&KeySet::from_list(&entry.1));
        }
        proof {
            let allowed = part(i + 1).allowed_paths(method@);
            assert forall|p: Seq<char>| r@.contains(p) <==> allowed.contains(p) by {
                if part(i as int).allowed_paths(method@).contains(p) {
                    let k = choose|k: int|
                        0 <= k < now.len() && (#[trigger] now[k]).0 == method@ && now[k].1.contains(
                            p,
                        );
                    assert(next[k] == now[k]);
                }
                if allowed.contains(p) {
                    let k = choose|k: int|
                        0 <= k < next.len() && (#[trigger] next[k]).0 == method@
                            && next[k].1.contains(p);
                    if k < i {
                        assert(next[k] == now[k]);
                    }
                }
                assert(next[i as int] == table[i as int]);
            }
            assert(r@ =~= allowed);
        }
        i = i + 1;
    }
    assert(table.take(i as int) =~= table);
    r
}

/// Adds how the keys of the frames of `kind` of `method` differ.
fn compare_keys(
    step: &str,
    method: &String,
    kind: FrameKind,
    r: &KeySet,
    t: &KeySet,
    div: &KnownDivergence,
    findings: &mut Vec<Finding>,
)
    ensures
        finding_models(final(findings)@) == finding_models(old(findings)@) + key_findings(
            step@,
            method@,
            kind,
            r@,
            t@,
            div@,
        ),
{
    let ghost start = finding_models(findings@);
    let skip = match kind {
        FrameKind::Response => text::listed(&div.skipped_methods, method.as_str()),
        FrameKind::Notification => text::listed(&div.skipped_notifications, method.as_str()),
    };
    if skip {
        assert(finding_models(findings@) =~= start + Seq::<FindingModel>::empty());
        return;
    }
    let allowed = allowed_paths(div, method.as_str());
    let missing = r.minus(t).minus(&allowed);
    let extra = t.minus(r).minus(&allowed);
    if !missing.is_empty() || !extra.is_empty() {
        findings.push(
            Finding::KeyDifference {
                step: step.to_string(),
                method: method.clone(),
                kind,
                missing,
                extra,
            },
        );
    }
    assert(finding_models(findings@) =~= start + key_findings(step@, method@, kind, r@, t@, div@));
}

/// What is wrong with a method in a step.
enum Problem {
    NoResponse,
    NoNotification,
    ExtraNotification,
}

/// The finding that a problem with a method is reported as.
spec fn reported(problem: Problem, step: Seq<char>, method: Seq<char>) -> FindingModel {
    match problem {
        Problem::NoResponse => FindingModel::MissingResponse { step, method },
        Problem::NoNotification => FindingModel::MissingNotification { step, method },
        Problem::ExtraNotification => FindingModel::ExtraNotification { step, method },
    }
}

/// Reports a problem with each of some methods, in order.
fn report_methods(
    step: &str,
    methods: &KeySet,
    problem: Problem,
    findings: &mut Vec<Finding>,
)
    ensures
        finding_models(final(findings)@) == finding_models(old(findings)@) + text::sorted(
            methods@,
        ).map_values(|method: Seq<char>| reported(problem, step@, method)),
{
    let ghost start = finding_models(findings@);
    let ghost names = text::sorted(methods@);
    let ghost f = |method: Seq<char>| reported(problem, step@, method);
    let mut i: usize = 0;
    let n: usize = methods.len();
    assert(start =~= start + names.take(0).map_values(f));
    while i < n
        invariant
            n == names.len(),
            names == text::sorted(methods@),
            f == (|method: Seq<char>| reported(problem, step@, method)),
            i <= names.len(),
            finding_models(findings@) == start + names.take(i as int).map_values(f),
        decreases names.len() - i,
    {
        let ghost so_far = findings@;
        let (step, method) = (step.to_string(), methods.get(i).clone());
        findings.push(
            match problem {
                Problem::NoResponse => Finding::MissingResponse { step, method },
                Problem::NoNotification => Finding::MissingNotification { step, method },
                Problem::ExtraNotification => Finding::ExtraNotification { step, method },
            },
        );
        proof {
            lemma_findings_push(so_far, findings@.last());
            assert(findings@ =~= so_far.push(findings@.last()));
            names.lemma_map_take_succ(f, i as int);
            assert(finding_models(findings@) =~= start + names.take(i + 1).map_values(f));
        }
        i = i + 1;
    }
    assert(names.take(i as int) =~= names);
}

/// Adds how the target's frames of one step differ from the reference's.
fn compare_step(
    step: &str,
    reference: &[&Frame],
    target: &[&Frame],
    div: &KnownDivergence,
    findings: &mut Vec<Finding>,
)
    ensures
        finding_models(final(findings)@) == finding_models(old(findings)@) + step_findings(
            step@,
            transcript::borrowed(reference@),
            transcript::borrowed(target@),
            div@,
        ),
{
    let ghost start = finding_models(findings@);
    let ghost (r, t) = (transcript::borrowed(reference@), transcript::borrowed(target@));
    let ref_responses = methods_sent(reference, FrameKind::Response);
    let tgt_responses = methods_sent(target, FrameKind::Response);
    let ref_kinds = methods_sent(reference, FrameKind::Notification);
    let tgt_kinds = methods_sent(target, FrameKind::Notification);

    let may_fail = KeySet::from_list(&div.skipped_methods);
    let silent = methods_succeeding(reference).minus(&methods_succeeding(target)).minus(
        &methods_failing(target),
    ).minus(&may_fail);
    report_methods(step, &silent, Problem::NoResponse, findings);
    let ghost silences = unanswered(r, t, div@).map_values(
        |method: Seq<char>| FindingModel::MissingResponse { step: step@, method },
    );
    assert(finding_models(findings@) =~= start + silences);

    let skipped = KeySet::from_list(&div.skipped_notifications);
    let missing = ref_kinds.minus(&tgt_kinds).minus(&skipped);
    report_methods(step, &missing, Problem::NoNotification, findings);
    let ghost first = lacking(r, t, div@).map_values(
        |method: Seq<char>| FindingModel::MissingNotification { step: step@, method },
    );
    assert(finding_models(findings@) =~= start + silences + first);

    let extra = tgt_kinds.minus(&ref_kinds).minus(&skipped);
    report_methods(step, &extra, Problem::ExtraNotification, findings);
    let ghost second = lacking(t, r, div@).map_values(
        |method: Seq<char>| FindingModel::ExtraNotification { step: step@, method },
    );
    assert(finding_models(findings@) =~= start + silences + first + second);

    // The keys of all frames of a method are taken together on each side, so that a key that
    // only some entries populate counts.
    let ref_keys = group_fingerprints(reference);
    let tgt_keys = group_fingerprints(target);
    let mut methods = ref_keys.methods(Ghost(r));
    methods.extend(&tgt_keys.methods(Ghost(t)));
    let ghost names = compared_methods(r, t);
    assert(methods@ =~= populated(r, FrameKind::Response).union(
        populated(r, FrameKind::Notification),
    ).union(populated(t, FrameKind::Response)).union(populated(t, FrameKind::Notification)));
    let ghost f = |method: Seq<char>| method_findings(step@, method, r, t, div@);
    let mut i: usize = 0;
    assert(start + silences + first + second =~= start + silences + first + second + names.take(
        0,
    ).flat_map(f));
    let n: usize = methods.len();
    while i < n
        invariant
            n == names.len(),
            names == text::sorted(methods@),
            f == (|method: Seq<char>| method_findings(step@, method, r, t, div@)),
            ref_keys.describes(r),
            tgt_keys.describes(t),
            ref_responses@ == sent(r, FrameKind::Response),
            tgt_responses@ == sent(t, FrameKind::Response),
            ref_kinds@ == sent(r, FrameKind::Notification),
            tgt_kinds@ == sent(t, FrameKind::Notification),
            i <= names.len(),
            finding_models(findings@) == start + silences + first + second + names.take(
                i as int,
            ).flat_map(f),
        decreases names.len() - i,
    {
        let ghost so_far = finding_models(findings@);
        let method = methods.get(i);
        let kind = FrameKind::Response;
        if ref_responses.contains(method.as_str()) && tgt_responses.contains(method.as_str()) {
            compare_keys(
                step,
                method,
                kind,
                &ref_keys.keys(method.as_str(), kind, Ghost(r)),
                &tgt_keys.keys(method.as_str(), kind, Ghost(t)),
                div,
                findings,
            );
        }
        assert(finding_models(findings@) =~= so_far + kind_findings(
            step@,
            method@,
            kind,
            r,
            t,
            div@,
        ));
        let kind = FrameKind::Notification;
        if ref_kinds.contains(method.as_str()) && tgt_kinds.contains(method.as_str()) {
            compare_keys(
                step,
                method,
                kind,
                &ref_keys.keys(method.as_str(), kind, Ghost(r)),
                &tgt_keys.keys(method.as_str(), kind, Ghost(t)),
                div,
                findings,
            );
        }
        proof {
            assert(finding_models(findings@) =~= so_far + f(method@));
            names.lemma_flat_map_take_append(f, i as int);
            assert(finding_models(findings@) =~= start + silences + first + second + names.take(
                i + 1,
            ).flat_map(f));
        }
        i = i + 1;
    }
    assert(names.take(i as int) =~= names);
    assert(finding_models(findings@) =~= start + step_findings(step@, r, t, div@));
}

/// Runs all layers of the comparison of `target` against `reference`.
pub fn compare(reference: &Transcript, target: &Transcript) -> (report: ConformanceReport)
    ensures
        report.target == target.target,
        report@ == compare_findings(
            reference@,
            target@,
            divergence::known_divergence(target.target),
        ),
{
    let div = KnownDivergence::for_target(target.target);
    let mut findings = check_frames(target, &div, Some(reference));
    let ghost checked = finding_models(findings@);

    let ref_by_step = group_by_step(reference);
    let tgt_by_step = group_by_step(target);
    let mut all_steps = ref_by_step.keys();
    all_steps.extend(&tgt_by_step.keys());
    let ghost names = text::sorted(steps(reference@).union(steps(target@)));
    let ghost f = |step: Seq<char>|
        step_findings(step, step_frames(reference@, step), step_frames(target@, step), div@);
    let mut i: usize = 0;
    assert(checked =~= checked + names.take(0).flat_map(f));
    let n: usize = all_steps.len();
    while i < n
        invariant
            n == names.len(),
            names == text::sorted(all_steps@),
            all_steps@ == steps(reference@).union(steps(target@)),
            f == (|step: Seq<char>|
                step_findings(
                    step,
                    step_frames(reference@, step),
                    step_frames(target@, step),
                    div@,
                )),
            ref_by_step@.dom() == steps(reference@),
            forall|step: Seq<char>| #[trigger]
                ref_by_step@.contains_key(step) ==> locates(
                    ref_by_step@[step]@,
                    reference@,
                    step,
                ),
            tgt_by_step@.dom() == steps(target@),
            forall|step: Seq<char>| #[trigger]
                tgt_by_step@.contains_key(step) ==> locates(tgt_by_step@[step]@, target@, step),
            i <= names.len(),
            finding_models(findings@) == checked + names.take(i as int).flat_map(f),
        decreases names.len() - i,
    {
        let step = all_steps.get(i);
        assert(all_steps@.contains(step@));
        compare_step(
            step.as_str(),
            frames_of(reference, &ref_by_step, step.as_str()).as_slice(),
            frames_of(target, &tgt_by_step, step.as_str()).as_slice(),
            &div,
            &mut findings,
        );
        proof {
            names.lemma_flat_map_take_append(f, i as int);
            assert(finding_models(findings@) =~= checked + names.take(i + 1).flat_map(f));
        }
        i = i + 1;
    }
    assert(names.take(i as int) =~= names);
    ConformanceReport { target: target.target, findings }
}

} // verus!
