use model_preview::frames::{encoder_args, frame_angle, FrameAngle};
use model_preview::pipeline::{Action, Event, Failure, Run, Stage};

fn frame_action(a: &Action) -> (u32, FrameAngle, String) {
    match a {
        Action::RenderFrame { index, angle, path } => (*index, *angle, path.clone()),
        other => panic!("expected a frame, got {:?}", other),
    }
}

/// Drives a run of `filename` through `events`, returning it and every action.
fn drive(filename: &str, frames: u32, events: &[Event]) -> (Run, Vec<Action>) {
    let (mut run, first) = Run::start(filename, frames, "10");
    let mut actions = vec![first];
    for e in events {
        actions.push(run.step(*e));
    }
    (run, actions)
}

fn success_events(frames: u32) -> Vec<Event> {
    let mut events = vec![Event::ModelWritten, Event::ModelParsed];
    for _ in 0..frames {
        events.push(Event::FrameSaved);
    }
    events.push(Event::AnimationEncoded);
    events.push(Event::AnimationOpened);
    events.push(Event::ArtifactBuilt);
    events
}

#[test]
fn name_without_extension_ends_before_acquisition() {
    for name in ["model", "", ".stl", "model."] {
        let (mut run, action) = Run::start(name, 4, "10");
        assert_eq!(run.stage(), Stage::Failed(Failure::NoExtension));
        assert!(matches!(action, Action::Release));
        assert!(matches!(run.step(Event::ModelWritten), Action::Idle));
        assert_eq!(run.stage(), Stage::Failed(Failure::NoExtension));
    }
}

#[test]
fn end_to_end_four_frames() {
    let (run, actions) = drive("part.stl", 4, &success_events(4));
    assert_eq!(run.stage(), Stage::Done);
    assert_eq!(run.display_name(), "part.gif");
    assert_eq!(actions.len(), 10);
    match &actions[0] {
        Action::Acquire { path } => assert_eq!(path, "a.stl"),
        other => panic!("{:?}", other),
    }
    match &actions[1] {
        Action::ParseModel { path } => assert_eq!(path, "a.stl"),
        other => panic!("{:?}", other),
    }
    for i in 0..4u32 {
        let (index, angle, path) = frame_action(&actions[2 + i as usize]);
        assert_eq!(index, i);
        assert_eq!(angle, FrameAngle { numerator: i as u64 * 360, denominator: 4 });
        assert_eq!(path, format!("a-0{}.png", i));
    }
    let output = match &actions[6] {
        Action::Encode { args } => {
            assert_eq!(args.len(), 8);
            assert_eq!(args[0], "-o");
            assert_eq!(args[2], "--fps");
            assert_eq!(args[3], "10");
            assert_eq!(&args[4..], &["a-00.png", "a-01.png", "a-02.png", "a-03.png"]);
            assert!(args[1].ends_with(".gif"));
            assert_eq!(args[1].len(), 40);
            args[1].clone()
        },
        other => panic!("{:?}", other),
    };
    match &actions[7] {
        Action::OpenAnimation { path } => assert_eq!(path, &output),
        other => panic!("{:?}", other),
    }
    match &actions[8] {
        Action::BuildArtifact { display_name } => assert_eq!(display_name, "part.gif"),
        other => panic!("{:?}", other),
    }
    assert!(matches!(actions[9], Action::Release));
}

#[test]
fn frames_come_in_angle_order() {
    let (_, actions) = drive("m.obj", 6, &success_events(6));
    let angles: Vec<FrameAngle> = actions[2..8].iter().map(|a| frame_action(a).1).collect();
    for (i, a) in angles.iter().enumerate() {
        assert_eq!(a.denominator, 6);
        assert_eq!(a.numerator, i as u64 * 360);
        assert_eq!(a.numerator / a.denominator as u64, i as u64 * 60);
    }
}

#[test]
fn frame_failure_prevents_encoding() {
    for bad in 0..4usize {
        let mut events = vec![Event::ModelWritten, Event::ModelParsed];
        for _ in 0..bad {
            events.push(Event::FrameSaved);
        }
        events.push(Event::FrameSaveFailed);
        events.push(Event::FrameSaved);
        events.push(Event::AnimationEncoded);
        let (run, actions) = drive("part.stl", 4, &events);
        assert_eq!(run.stage(), Stage::Failed(Failure::FrameSave { index: bad as u32 }));
        assert!(!actions.iter().any(|a| matches!(a, Action::Encode { .. })));
        assert!(matches!(actions[3 + bad], Action::Release));
        assert!(actions[4 + bad..].iter().all(|a| matches!(a, Action::Idle)));
    }
}

#[test]
fn every_outcome_releases_the_workspace_once() {
    let full = success_events(3);
    let failures = [
        (0, Event::DownloadFailed, Failure::Download),
        (0, Event::WriteFailed, Failure::Write),
        (1, Event::FormatUnsupported, Failure::UnsupportedFormat),
        (1, Event::ParseFailed, Failure::Parse),
        (1, Event::RenderTaskFailed, Failure::RenderTask),
        (3, Event::RenderTaskFailed, Failure::RenderTask),
        (5, Event::EncodeFailed, Failure::Encode),
        (6, Event::OpenFailed, Failure::Open),
        (7, Event::ArtifactFailed, Failure::Artifact),
        (2, Event::AnimationEncoded, Failure::OutOfOrder),
    ];
    for (at, event, reason) in failures {
        let mut events = full[..at].to_vec();
        events.push(event);
        events.extend_from_slice(&full[at..]);
        let (run, actions) = drive("x.3mf", 3, &events);
        assert_eq!(run.stage(), Stage::Failed(reason));
        let releases = actions.iter().filter(|a| matches!(a, Action::Release)).count();
        assert_eq!(releases, 1);
        assert!(matches!(actions[at + 1], Action::Release));
    }
    let (run, actions) = drive("x.3mf", 3, &full);
    assert_eq!(run.stage(), Stage::Done);
    assert_eq!(actions.iter().filter(|a| matches!(a, Action::Release)).count(), 1);
    assert!(matches!(actions.last(), Some(Action::Release)));
}

#[test]
fn zero_frames_go_straight_to_encoding() {
    let (run, actions) = drive("x.stl", 0, &[Event::ModelWritten, Event::ModelParsed]);
    assert_eq!(run.stage(), Stage::Rendered);
    match &actions[2] {
        Action::Encode { args } => assert_eq!(args.len(), 4),
        other => panic!("{:?}", other),
    }
}

#[test]
fn frame_angles_split_a_turn() {
    assert_eq!(frame_angle(0, 60), FrameAngle { numerator: 0, denominator: 60 });
    assert_eq!(frame_angle(59, 60), FrameAngle { numerator: 21240, denominator: 60 });
    assert_eq!(
        frame_angle(4294967294, 4294967295),
        FrameAngle { numerator: 4294967294u64 * 360, denominator: 4294967295 }
    );
}

#[test]
fn encoder_arguments() {
    assert_eq!(
        encoder_args("out.gif", "12", 3),
        vec!["-o", "out.gif", "--fps", "12", "a-00.png", "a-01.png", "a-02.png"]
    );
    assert_eq!(encoder_args("o.gif", "12.5", 0), vec!["-o", "o.gif", "--fps", "12.5"]);
}
