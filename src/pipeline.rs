//! The run of one attachment: a state machine that decides, from the outcome
//! of each stage, which stage comes next, and that releases the workspace on
//! every way out.

use vstd::prelude::*;
use crate::frames::{encoder_args, encoder_args_of, frame_angle, is_frame_angle, FrameAngle};
use crate::names::{
    animation_file_name, extension_of, frame_file_name, frame_name, gif_file_name, gif_name,
    is_hyphenated_id, model_file_name, model_name, lower_of, split_file_name, stem_of,
};

verus! {

/// Why a run ended without an artifact.
#[derive(Clone, Copy, Debug, PartialEq, Eq, Structural)]
pub enum Failure {
    /// No workspace could be created for the run.
    Workspace,
    /// The attachment's name has no extension.
    NoExtension,
    /// Its bytes could not be downloaded.
    Download,
    /// Its bytes could not be written into the workspace.
    Write,
    /// The renderer does not know the model's format.
    UnsupportedFormat,
    /// The renderer could not parse the model.
    Parse,
    /// The frame of this index could not be rendered or saved.
    FrameSave { index: u32 },
    /// The rendering task stopped before it reported.
    RenderTask,
    /// The encoder did not complete.
    Encode,
    /// The animation file could not be opened.
    Open,
    /// The artifact could not be built from the animation.
    Artifact,
    /// An event came that the stage under way does not produce.
    OutOfOrder,
}

/// Where a run stands.
#[derive(Clone, Copy, Debug, PartialEq, Eq, Structural)]
pub enum Stage {
    /// The model is being downloaded into the workspace.
    Pending,
    /// The model is in the workspace and is being parsed.
    Acquired,
    /// The model is parsed, and frames `0..saved` are saved; frame `saved`
    /// is being rendered.
    Rendering { saved: u32 },
    /// Every frame is saved, and the animation is being encoded.
    Rendered,
    /// The animation is written, and is being opened.
    Encoded,
    /// The animation is open, and the artifact is being built from it.
    Packaged,
    /// The artifact is built; the workspace is released.
    Done,
    /// The run failed; the workspace is released.
    Failed(Failure),
}

/// What the stage under way reports.
#[derive(Clone, Copy, Debug, PartialEq, Eq, Structural)]
pub enum Event {
    /// The model's bytes are downloaded and written.
    ModelWritten,
    /// The download failed.
    DownloadFailed,
    /// Writing the bytes failed.
    WriteFailed,
    /// The renderer parsed the model.
    ModelParsed,
    /// The renderer does not know the model's format.
    FormatUnsupported,
    /// The renderer could not parse the model.
    ParseFailed,
    /// The frame asked for is rendered and saved.
    FrameSaved,
    /// The frame asked for could not be rendered or saved.
    FrameSaveFailed,
    /// The rendering task stopped before it reported.
    RenderTaskFailed,
    /// The encoder completed.
    AnimationEncoded,
    /// The encoder could not be run, or did not complete.
    EncodeFailed,
    /// The animation file is open.
    AnimationOpened,
    /// The animation file could not be opened.
    OpenFailed,
    /// The artifact is built from the animation's bytes.
    ArtifactBuilt,
    /// The artifact could not be built.
    ArtifactFailed,
}

/// What the caller is to do next. Paths are relative to the workspace.
#[derive(Debug)]
pub enum Action {
    /// Download the attachment and write its bytes at `path`.
    Acquire { path: String },
    /// Parse the model at `path`.
    ParseModel { path: String },
    /// Render the frame `index`, seen from `angle`, and save it at `path`.
    RenderFrame { index: u32, angle: FrameAngle, path: String },
    /// Run the encoder, inside the workspace, with `args`.
    Encode { args: Vec<String> },
    /// Open the animation file at `path`.
    OpenAnimation { path: String },
    /// Read the open animation in full into an artifact named `display_name`.
    BuildArtifact { display_name: String },
    /// Remove the workspace: the run is over.
    Release,
    /// Nothing: the run was already over.
    Idle,
}

/// Whether a run is over.
pub open spec fn is_finished(s: Stage) -> bool {
    s is Done || s is Failed
}

/// Whether a run has gone past rendering: encoding was asked for.
pub open spec fn past_rendering(s: Stage) -> bool {
    s is Rendered || s is Encoded || s is Packaged || s is Done
}

/// The stage that follows `s` on event `e`, for a run of `n` frames. Each
/// stage is tried once: its failure ends the run, and so does an event that
/// it does not produce. A finished run stays as it is.
pub open spec fn next_stage(s: Stage, n: nat, e: Event) -> Stage {
    match s {
        Stage::Pending => match e {
            Event::ModelWritten => Stage::Acquired,
            Event::DownloadFailed => Stage::Failed(Failure::Download),
            Event::WriteFailed => Stage::Failed(Failure::Write),
            _ => Stage::Failed(Failure::OutOfOrder),
        },
        Stage::Acquired => match e {
            Event::ModelParsed => if n == 0 {
                Stage::Rendered
            } else {
                Stage::Rendering { saved: 0 }
            },
            Event::FormatUnsupported => Stage::Failed(Failure::UnsupportedFormat),
            Event::ParseFailed => Stage::Failed(Failure::Parse),
            Event::RenderTaskFailed => Stage::Failed(Failure::RenderTask),
            _ => Stage::Failed(Failure::OutOfOrder),
        },
        Stage::Rendering { saved } => match e {
            Event::FrameSaved => if saved + 1 >= n {
                Stage::Rendered
            } else {
                Stage::Rendering { saved: (saved + 1) as u32 }
            },
            Event::FrameSaveFailed => Stage::Failed(Failure::FrameSave { index: saved }),
            Event::RenderTaskFailed => Stage::Failed(Failure::RenderTask),
            _ => Stage::Failed(Failure::OutOfOrder),
        },
        Stage::Rendered => match e {
            Event::AnimationEncoded => Stage::Encoded,
            Event::EncodeFailed => Stage::Failed(Failure::Encode),
            _ => Stage::Failed(Failure::OutOfOrder),
        },
        Stage::Encoded => match e {
            Event::AnimationOpened => Stage::Packaged,
            Event::OpenFailed => Stage::Failed(Failure::Open),
            _ => Stage::Failed(Failure::OutOfOrder),
        },
        Stage::Packaged => match e {
            Event::ArtifactBuilt => Stage::Done,
            Event::ArtifactFailed => Stage::Failed(Failure::Artifact),
            _ => Stage::Failed(Failure::OutOfOrder),
        },
        Stage::Done => Stage::Done,
        Stage::Failed(f) => Stage::Failed(f),
    }
}

/// The stage after a sequence of events.
pub open spec fn stage_after(s: Stage, n: nat, events: Seq<Event>) -> Stage
    decreases events.len(),
{
    if events.len() == 0 {
        s
    } else {
        stage_after(next_stage(s, n, events[0]), n, events.drop_first())
    }
}

/// What a run holds, as plain values.
pub struct RunView {
    pub stage: Stage,
    pub frame_count: nat,
    pub fps: Seq<char>,
    pub model_path: Seq<char>,
    pub animation_path: Seq<char>,
    pub display_name: Seq<char>,
}

/// The run of one attachment.
#[derive(Clone, Debug)]
pub struct Run {
    stage: Stage,
    frame_count: u32,
    fps: String,
    model_path: String,
    animation_path: String,
    display_name: String,
}

impl View for Run {
    type V = RunView;

    closed spec fn view(&self) -> RunView {
        RunView {
            stage: self.stage,
            frame_count: self.frame_count as nat,
            fps: self.fps@,
            model_path: self.model_path@,
            animation_path: self.animation_path@,
            display_name: self.display_name@,
        }
    }
}

/// The action that comes on entry to stage `s` of run `r`: the work of that
/// stage, or the release of the workspace when the run is over.
pub open spec fn is_action_for(r: RunView, s: Stage, a: Action) -> bool {
    match s {
        Stage::Pending => a matches Action::Acquire { path } && path@ == r.model_path,
        Stage::Acquired => a matches Action::ParseModel { path } && path@ == r.model_path,
        Stage::Rendering { saved } => a matches Action::RenderFrame { index, angle, path }
            && index == saved && is_frame_angle(angle, saved as nat, r.frame_count)
            && path@ == frame_name(saved as nat),
        Stage::Rendered => a matches Action::Encode { args }
            && args.deep_view() == encoder_args_of(r.animation_path, r.fps, r.frame_count),
        Stage::Encoded => a matches Action::OpenAnimation { path } && path@ == r.animation_path,
        Stage::Packaged => a matches Action::BuildArtifact { display_name }
            && display_name@ == r.display_name,
        Stage::Done => a is Release,
        Stage::Failed(_) => a is Release,
    }
}

impl Run {
    /// Where the run stands.
    pub fn stage(&self) -> (r: Stage)
        ensures
            r == self@.stage,
    {
        self.stage
    }

    /// The name under which the artifact is delivered.
    pub fn display_name(&self) -> (r: &str)
        ensures
            r@ == self@.display_name,
    {
        self.display_name.as_str()
    }

    /// Starts the run of the attachment `filename`, in a fresh workspace, for
    /// `frame_count` frames encoded at `fps` (the rate as text). A name with
    /// no extension ends the run at once, before anything is written.
    /// Otherwise the model is to be written as `a.<extension in lowercase>`,
    /// the animation gets a fresh random name, and the artifact is named
    /// after the attachment's base name with `.gif` appended.
    pub fn start(filename: &str, frame_count: u32, fps: &str) -> (r: (Run, Action))
        ensures
            r.0@.frame_count == frame_count,
            r.0@.fps == fps@,
            match extension_of(filename@) {
                None => r.0@.stage == Stage::Failed(Failure::NoExtension) && r.1 is Release,
                Some(ext) => {
                    &&& r.0@.stage == Stage::Pending
                    &&& r.0@.model_path == model_name(lower_of(ext))
                    &&& r.0@.display_name == gif_name(stem_of(filename@))
                    &&& exists|id: Seq<char>|
                        is_hyphenated_id(id) && r.0@.animation_path == gif_name(id)
                    &&& is_action_for(r.0@, Stage::Pending, r.1)
                },
            },
    {
        match split_file_name(filename) {
            None => {
                let run = Run {
                    stage: Stage::Failed(Failure::NoExtension),
                    frame_count,
                    fps: String::from_str(fps),
                    model_path: String::new(),
                    animation_path: String::new(),
                    display_name: String::new(),
                };
                (run, Action::Release)
            },
            Some((stem, ext)) => {
                let model_path = model_file_name(ext.as_str());
                let action = Action::Acquire { path: model_path.clone() };
                let run = Run {
                    stage: Stage::Pending,
                    frame_count,
                    fps: String::from_str(fps),
                    model_path,
                    animation_path: animation_file_name(),
                    display_name: gif_file_name(stem.as_str()),
                };
                (run, action)
            },
        }
    }

    /// The action that comes on entry to `stage`.
    fn action_for(&self, stage: Stage) -> (a: Action)
        requires
            stage is Rendering ==> stage->saved < self.frame_count,
        ensures
            is_action_for(self@, stage, a),
    {
        match stage {
            Stage::Pending => Action::Acquire { path: self.model_path.clone() },
            Stage::Acquired => Action::ParseModel { path: self.model_path.clone() },
            Stage::Rendering { saved } => Action::RenderFrame {
                index: saved,
                angle: frame_angle(saved, self.frame_count),
                path: frame_file_name(saved),
            },
            Stage::Rendered => Action::Encode {
                args: encoder_args(
                    self.animation_path.as_str(),
                    self.fps.as_str(),
                    self.frame_count,
                ),
            },
            Stage::Encoded => Action::OpenAnimation { path: self.animation_path.clone() },
            Stage::Packaged => Action::BuildArtifact { display_name: self.display_name.clone() },
            Stage::Done => Action::Release,
            Stage::Failed(_) => Action::Release,
        }
    }

    /// Takes the outcome of the stage under way and gives what to do next.
    /// The run moves to `next_stage`. On a finished run nothing changes and
    /// the action is `Idle`; otherwise the action is the one on entry to the
    /// new stage, and `Release` comes exactly when the run is over.
    pub fn step(&mut self, event: Event) -> (a: Action)
        ensures
            final(self)@ == (RunView {
                stage: next_stage(old(self)@.stage, old(self)@.frame_count, event),
                ..old(self)@
            }),
            is_finished(old(self)@.stage) ==> a is Idle,
            !is_finished(old(self)@.stage) ==> is_action_for(final(self)@, final(self)@.stage, a),
            !is_finished(old(self)@.stage) ==> (a is Release <==> is_finished(final(self)@.stage)),
    {
        let n = self.frame_count;
        let next = match self.stage {
            Stage::Pending => match event {
                Event::ModelWritten => Stage::Acquired,
                Event::DownloadFailed => Stage::Failed(Failure::Download),
                Event::WriteFailed => Stage::Failed(Failure::Write),
                _ => Stage::Failed(Failure::OutOfOrder),
            },
            Stage::Acquired => match event {
                Event::ModelParsed => if n == 0 {
                    Stage::Rendered
                } else {
                    Stage::Rendering { saved: 0 }
                },
                Event::FormatUnsupported => Stage::Failed(Failure::UnsupportedFormat),
                Event::ParseFailed => Stage::Failed(Failure::Parse),
                Event::RenderTaskFailed => Stage::Failed(Failure::RenderTask),
                _ => Stage::Failed(Failure::OutOfOrder),
            },
            Stage::Rendering { saved } => match event {
                Event::FrameSaved => if saved as u64 + 1 >= n as u64 {
                    Stage::Rendered
                } else {
                    Stage::Rendering { saved: saved + 1 }
                },
                Event::FrameSaveFailed => Stage::Failed(Failure::FrameSave { index: saved }),
                Event::RenderTaskFailed => Stage::Failed(Failure::RenderTask),
                _ => Stage::Failed(Failure::OutOfOrder),
            },
            Stage::Rendered => match event {
                Event::AnimationEncoded => Stage::Encoded,
                Event::EncodeFailed => Stage::Failed(Failure::Encode),
                _ => Stage::Failed(Failure::OutOfOrder),
            },
            Stage::Encoded => match event {
                Event::AnimationOpened => Stage::Packaged,
                Event::OpenFailed => Stage::Failed(Failure::Open),
                _ => Stage::Failed(Failure::OutOfOrder),
            },
            Stage::Packaged => match event {
                Event::ArtifactBuilt => Stage::Done,
                Event::ArtifactFailed => Stage::Failed(Failure::Artifact),
                _ => Stage::Failed(Failure::OutOfOrder),
            },
            Stage::Done => {
                return Action::Idle;
            },
            Stage::Failed(_) => {
                return Action::Idle;
            },
        };
        self.stage = next;
        self.action_for(next)
    }
}

/// `k` reports of a saved frame.
pub open spec fn saves(k: nat) -> Seq<Event> {
    Seq::new(k, |_i: int| Event::FrameSaved)
}

/// The events that take a run from `s` to the request to encode, with no
/// failure on the way.
pub open spec fn events_to_encoding(s: Stage, n: nat) -> Seq<Event> {
    match s {
        Stage::Pending => seq![Event::ModelWritten, Event::ModelParsed] + saves(n),
        Stage::Acquired => seq![Event::ModelParsed] + saves(n),
        Stage::Rendering { saved } => saves((n - saved) as nat),
        _ => Seq::empty(),
    }
}

/// How many more events a run from `s` takes, at most, to finish.
pub open spec fn steps_left(s: Stage, n: nat) -> nat {
    match s {
        Stage::Pending => n + 5,
        Stage::Acquired => n + 4,
        Stage::Rendering { saved } => if saved < n { (n - saved + 3) as nat } else { 4 },
        Stage::Rendered => 3,
        Stage::Encoded => 2,
        Stage::Packaged => 1,
        Stage::Done => 0,
        Stage::Failed(_) => 0,
    }
}

/// A finished run stays as it is, whatever comes.
pub proof fn lemma_finished_stays(s: Stage, n: nat, events: Seq<Event>)
    requires
        is_finished(s),
    ensures
        stage_after(s, n, events) == s,
    decreases events.len(),
{
    if events.len() > 0 {
        lemma_finished_stays(next_stage(s, n, events[0]), n, events.drop_first());
    }
}

/// One more event moves the stage reached by the events before it.
proof fn lemma_stage_after_push(s: Stage, n: nat, events: Seq<Event>, e: Event)
    ensures
        stage_after(s, n, events.push(e)) == next_stage(stage_after(s, n, events), n, e),
    decreases events.len(),
{
    if events.len() > 0 {
        assert(events.push(e).drop_first() =~= events.drop_first().push(e));
        assert(events.push(e)[0] == events[0]);
        lemma_stage_after_push(next_stage(s, n, events[0]), n, events.drop_first(), e);
    } else {
        assert(events.push(e).drop_first() =~= Seq::<Event>::empty());
        assert(events.push(e)[0] == e);
        assert(stage_after(next_stage(s, n, e), n, Seq::<Event>::empty()) == next_stage(s, n, e));
    }
}

/// Events in two parts take the run through the first part, then the second.
proof fn lemma_stage_after_concat(s: Stage, n: nat, a: Seq<Event>, b: Seq<Event>)
    ensures
        stage_after(s, n, a + b) == stage_after(stage_after(s, n, a), n, b),
    decreases a.len(),
{
    if a.len() > 0 {
        assert((a + b).drop_first() =~= a.drop_first() + b);
        lemma_stage_after_concat(next_stage(s, n, a[0]), n, a.drop_first(), b);
    }
}

/// A run that reaches encoding from `s` has seen exactly the events that
/// lead there, first.
proof fn lemma_reaching_encoding(s: Stage, n: nat, events: Seq<Event>)
    requires
        n <= u32::MAX,
        !is_finished(s),
        !past_rendering(s),
        s is Rendering ==> s->saved < n,
        past_rendering(stage_after(s, n, events)),
    ensures
        events.len() >= events_to_encoding(s, n).len(),
        events.take(events_to_encoding(s, n).len() as int) == events_to_encoding(s, n),
    decreases events.len(),
{
    let e = events[0];
    let t = next_stage(s, n, e);
    let rest = events.drop_first();
    if is_finished(t) {
        lemma_finished_stays(t, n, rest);
    } else if past_rendering(t) {
        match s {
            Stage::Acquired => {
                assert(saves(n) =~= Seq::<Event>::empty());
            },
            Stage::Rendering { saved } => {
                assert(n - saved == 1);
            },
            _ => {},
        }
        assert(events_to_encoding(s, n) =~= seq![e]);
        assert(events.take(1) =~= seq![e]);
    } else {
        lemma_reaching_encoding(t, n, rest);
        let need = events_to_encoding(t, n);
        match s {
            Stage::Rendering { saved } => {
                assert(t == Stage::Rendering { saved: (saved + 1) as u32 });
                assert(saves((n - saved) as nat) =~= seq![Event::FrameSaved] + saves(
                    (n - (saved + 1)) as nat,
                ));
            },
            _ => {},
        }
        assert(events_to_encoding(s, n) =~= seq![e] + need);
        assert(events.take(need.len() + 1 as int) =~= seq![e] + rest.take(need.len() as int));
    }
}

/// Encoding is asked for only once the model was written and parsed and all
/// `n` frames were saved, reported in this order and with no failure
/// between: every run that reaches encoding, or goes past it, began so.
pub proof fn lemma_encoding_needs_every_frame(n: nat, events: Seq<Event>)
    requires
        n <= u32::MAX,
        past_rendering(stage_after(Stage::Pending, n, events)),
    ensures
        events.len() >= n + 2,
        events.take(n + 2 as int) == seq![Event::ModelWritten, Event::ModelParsed] + saves(n),
{
    lemma_reaching_encoding(Stage::Pending, n, events);
}

/// After the model is written and parsed and `k` frames are saved, the run
/// asks for frame `k` while `k < n`, and for encoding once `k == n`: frames
/// are asked for one at a time, in index order.
pub proof fn lemma_frames_in_order(n: nat, k: nat)
    requires
        k <= n,
        n <= u32::MAX,
    ensures
        stage_after(Stage::Pending, n, seq![Event::ModelWritten, Event::ModelParsed] + saves(k))
            == if k < n {
            Stage::Rendering { saved: k as u32 }
        } else {
            Stage::Rendered
        },
    decreases k,
{
    let head = seq![Event::ModelWritten, Event::ModelParsed];
    if k == 0 {
        assert(head + saves(0) =~= head);
        assert(head.drop_first() =~= seq![Event::ModelParsed]);
        assert(head.drop_first().drop_first() =~= Seq::<Event>::empty());
        assert(stage_after(Stage::Pending, n, head) == stage_after(
            Stage::Acquired,
            n,
            seq![Event::ModelParsed],
        ));
        assert(stage_after(Stage::Acquired, n, seq![Event::ModelParsed]) == stage_after(
            next_stage(Stage::Acquired, n, Event::ModelParsed),
            n,
            Seq::<Event>::empty(),
        ));
    } else {
        lemma_frames_in_order(n, (k - 1) as nat);
        assert(head + saves(k) =~= (head + saves((k - 1) as nat)).push(Event::FrameSaved));
        lemma_stage_after_push(
            Stage::Pending,
            n,
            head + saves((k - 1) as nat),
            Event::FrameSaved,
        );
    }
}

/// A frame that fails ends the run, with that frame's index as the reason,
/// and nothing after it is done: encoding never comes.
pub proof fn lemma_frame_failure_stops_run(n: nat, k: nat, rest: Seq<Event>)
    requires
        k < n,
        n <= u32::MAX,
    ensures
        stage_after(
            Stage::Pending,
            n,
            seq![Event::ModelWritten, Event::ModelParsed] + saves(k) + seq![Event::FrameSaveFailed]
                + rest,
        ) == Stage::Failed(Failure::FrameSave { index: k as u32 }),
{
    let head = seq![Event::ModelWritten, Event::ModelParsed] + saves(k);
    lemma_frames_in_order(n, k);
    lemma_stage_after_push(Stage::Pending, n, head, Event::FrameSaveFailed);
    lemma_stage_after_concat(Stage::Pending, n, head.push(Event::FrameSaveFailed), rest);
    assert(head + seq![Event::FrameSaveFailed] =~= head.push(Event::FrameSaveFailed));
    lemma_finished_stays(Stage::Failed(Failure::FrameSave { index: k as u32 }), n, rest);
}

/// Each event brings a run that is not over closer to its end.
proof fn lemma_step_progress(s: Stage, n: nat, e: Event)
    requires
        n <= u32::MAX,
        !is_finished(s),
    ensures
        steps_left(next_stage(s, n, e), n) < steps_left(s, n),
{
}

/// A run from `s` is over after `steps_left(s, n)` events.
proof fn lemma_finishes_from(s: Stage, n: nat, events: Seq<Event>)
    requires
        n <= u32::MAX,
        events.len() >= steps_left(s, n),
    ensures
        is_finished(stage_after(s, n, events)),
    decreases events.len(),
{
    if is_finished(s) {
        lemma_finished_stays(s, n, events);
    } else {
        lemma_step_progress(s, n, events[0]);
        lemma_finishes_from(next_stage(s, n, events[0]), n, events.drop_first());
    }
}

/// Every run ends, done or failed, within `n + 5` reports, and the step that
/// ends it asks for the workspace to be released: no outcome leaves the
/// workspace behind.
pub proof fn lemma_run_ends(n: nat, events: Seq<Event>)
    requires
        n <= u32::MAX,
        events.len() >= n + 5,
    ensures
        is_finished(stage_after(Stage::Pending, n, events)),
{
    lemma_finishes_from(Stage::Pending, n, events);
}

} // verus!
