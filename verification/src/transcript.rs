//! Recorded conversations with an agent, frame by frame.
use vstd::prelude::*;

use crate::key_set::KeySet;

verus! {

/// The agents whose bridges are compared. Codex is the reference.
#[derive(Clone, Copy, PartialEq, Eq, Structural, Debug)]
pub enum TargetId {
    Codex,
    Pi,
    Claude,
    Amp,
    Opencode,
    Hermes,
    Droid,
    Acp,
}

/// The names that targets go by in reports.
#[derive(Debug, Clone)]
pub struct TargetNames {
    pub names: Vec<(TargetId, String)>,
}

/// The name that a list gives a target: that of its first entry, and nothing where it has none.
pub open spec fn listed_name(names: Seq<(TargetId, String)>, target: TargetId) -> Seq<char>
    decreases names.len(),
{
    if names.len() == 0 {
        seq![]
    } else if names[0].0 == target {
        names[0].1@
    } else {
        listed_name(names.drop_first(), target)
    }
}

impl TargetNames {
    /// The name of a target.
    pub open spec fn label(&self, target: TargetId) -> Seq<char> {
        listed_name(self.names@, target)
    }

    /// The name of a target.
    pub fn name(&self, target: TargetId) -> (r: &str)
        ensures
            r@ == self.label(target),
    {
        let ghost all = self.names@;
        let mut i: usize = 0;
        assert(all.skip(0) =~= all);
        while i < self.names.len()
            invariant
                all == self.names@,
                i <= all.len(),
                listed_name(all, target) == listed_name(all.skip(i as int), target),
            decreases all.len() - i,
        {
            assert(all.skip(i as int).drop_first() =~= all.skip(i + 1));
            if self.names[i].0 == target {
                return self.names[i].1.as_str();
            }
            i = i + 1;
        }
        proof {
            reveal_strlit("");
        }
        assert(""@ =~= Seq::<char>::empty());
        ""
    }
}

/// What kind of message a frame is.
#[derive(Clone, Copy, PartialEq, Eq, Structural, Debug)]
pub enum FrameKind {
    Response,
    Notification,
}

impl FrameKind {
    /// The name a kind goes by in reports.
    pub open spec fn label(self) -> Seq<char> {
        match self {
            FrameKind::Response => "Response"@,
            FrameKind::Notification => "Notification"@,
        }
    }

    /// The name a kind goes by in reports.
    pub fn name(self) -> (r: &'static str)
        ensures
            r@ == self.label(),
    {
        match self {
            FrameKind::Response => "Response",
            FrameKind::Notification => "Notification",
        }
    }
}

/// What the schema checks said of one frame.
#[derive(Debug, Clone)]
pub struct FrameCheck {
    /// Why the frame did not deserialize into its typed form.
    pub deserialize_error: Option<String>,
    /// Why the frame does not meet the upstream JSON schema, where one was consulted.
    pub upstream_error: Option<String>,
    /// Whether the frame is an error response.
    pub error_response: bool,
    /// The code of the error that the frame carries.
    pub error_code: Option<i64>,
    /// The message of the error that the frame carries.
    pub error_message: Option<String>,
    /// The paths of the keys that the frame's payload populates.
    pub fingerprint: KeySet,
}

/// One frame of a recorded conversation.
#[derive(Debug, Clone)]
pub struct Frame {
    /// The step of the scenario in which the frame was seen.
    pub step: String,
    /// The method that the frame belongs to.
    pub method: String,
    pub kind: FrameKind,
    pub check: FrameCheck,
}

/// The frames that one target sent, in order.
#[derive(Debug, Clone)]
pub struct Transcript {
    pub target: TargetId,
    pub frames: Vec<Frame>,
}

/// What a [`FrameCheck`] says.
#[verifier::ext_equal]
pub struct CheckModel {
    pub deserialize_error: Option<Seq<char>>,
    pub upstream_error: Option<Seq<char>>,
    pub error_response: bool,
    pub error_code: Option<i64>,
    pub error_message: Option<Seq<char>>,
    pub fingerprint: Set<Seq<char>>,
}

/// What a [`Frame`] says.
#[verifier::ext_equal]
pub struct FrameModel {
    pub step: Seq<char>,
    pub method: Seq<char>,
    pub kind: FrameKind,
    pub check: CheckModel,
}

/// What an optional string says.
pub open spec fn optional(s: Option<String>) -> Option<Seq<char>> {
    match s {
        Some(s) => Some(s@),
        None => None,
    }
}

impl View for FrameCheck {
    type V = CheckModel;

    open spec fn view(&self) -> CheckModel {
        CheckModel {
            deserialize_error: optional(self.deserialize_error),
            upstream_error: optional(self.upstream_error),
            error_response: self.error_response,
            error_code: self.error_code,
            error_message: optional(self.error_message),
            fingerprint: self.fingerprint@,
        }
    }
}

impl View for Frame {
    type V = FrameModel;

    open spec fn view(&self) -> FrameModel {
        FrameModel {
            step: self.step@,
            method: self.method@,
            kind: self.kind,
            check: self.check@,
        }
    }
}

impl View for Transcript {
    type V = Seq<FrameModel>;

    open spec fn view(&self) -> Seq<FrameModel> {
        models(self.frames@)
    }
}

/// What a list of frames says.
pub open spec fn models(frames: Seq<Frame>) -> Seq<FrameModel> {
    frames.map_values(|f: Frame| f@)
}

/// What a list of borrowed frames says.
pub open spec fn borrowed(frames: Seq<&Frame>) -> Seq<FrameModel> {
    frames.map_values(|f: &Frame| f@)
}

impl Transcript {
    /// A conversation with `target` in which nothing was said yet.
    pub fn new(target: TargetId) -> (r: Transcript)
        ensures
            r.target == target,
            r@ == Seq::<FrameModel>::empty(),
    {
        let r = Transcript { target, frames: Vec::new() };
        assert(r@ =~= Seq::<FrameModel>::empty());
        r
    }

    /// Records one more frame.
    pub fn push(&mut self, frame: Frame)
        ensures
            final(self).target == old(self).target,
            final(self)@ == old(self)@.push(frame@),
    {
        self.frames.push(frame);
        assert(self@ =~= old(self)@.push(frame@));
    }
}

} // verus!
