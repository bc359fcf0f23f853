use model_preview::batch::{command_reply, summarize, CommandReply};
use model_preview::pipeline::{Event, Failure, Run, Stage};

fn final_stage(filename: &str, malformed: bool) -> Stage {
    let (mut run, _) = Run::start(filename, 2, "12");
    let parsed = if malformed { Event::ParseFailed } else { Event::ModelParsed };
    for e in [
        Event::ModelWritten,
        parsed,
        Event::FrameSaved,
        Event::FrameSaved,
        Event::AnimationEncoded,
        Event::AnimationOpened,
        Event::ArtifactBuilt,
    ] {
        run.step(e);
    }
    run.stage()
}

#[test]
fn one_malformed_attachment_fails_alone() {
    let names = ["a.stl", "b.obj", "c.3mf", "d.gcode"];
    let stages: Vec<Stage> = names.iter().map(|n| final_stage(n, *n == "c.3mf")).collect();
    let summary = summarize(&stages);
    assert_eq!(summary.delivered, vec![0, 1, 3]);
    assert_eq!(summary.failed, vec![2]);
    assert_eq!(stages[2], Stage::Failed(Failure::Parse));
}

#[test]
fn permuted_batch_keeps_the_partition() {
    let names = ["d.gcode", "c.3mf", "a.stl", "b.obj"];
    let stages: Vec<Stage> = names.iter().map(|n| final_stage(n, *n == "c.3mf")).collect();
    let summary = summarize(&stages);
    assert_eq!(summary.delivered, vec![0, 2, 3]);
    assert_eq!(summary.failed, vec![1]);
}

#[test]
fn summary_skips_unfinished_runs() {
    let stages = vec![Stage::Rendered, Stage::Done, Stage::Failed(Failure::Encode), Stage::Pending];
    let summary = summarize(&stages);
    assert_eq!(summary.delivered, vec![1]);
    assert_eq!(summary.failed, vec![2]);
    let empty = summarize(&vec![]);
    assert!(empty.delivered.is_empty() && empty.failed.is_empty());
}

#[test]
fn command_replies() {
    assert_eq!(command_reply(0, 0), CommandReply::NoModelsFound);
    assert_eq!(command_reply(3, 0), CommandReply::NothingProduced);
    assert_eq!(command_reply(3, 2), CommandReply::Artifacts);
}
