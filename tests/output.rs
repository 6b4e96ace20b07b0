use iocraft::{LoopAction, LoopEvent, LoopState, Phase, Splitter, Static, StaticProps, TermCommand};

fn lines(v: &[&str]) -> Vec<String> {
    v.iter().map(|s| s.to_string()).collect()
}

fn describe(cmds: &[TermCommand]) -> Vec<String> {
    cmds.iter()
        .map(|c| match c {
            TermCommand::MoveCursorUp(n) => format!("up {}", n),
            TermCommand::ClearLines(n) => format!("clear {}", n),
            TermCommand::WriteLine(s) => format!("write {}", s),
        })
        .collect()
}

#[test]
fn first_paint_writes_static_then_frame() {
    let mut term = Splitter::new();
    let cmds = term.paint(&lines(&["log 1"]), &lines(&["frame a", "frame b"]));
    assert_eq!(describe(&cmds), vec!["write log 1", "write frame a", "write frame b"]);
    assert_eq!(term.dynamic_height(), 2);
}

#[test]
fn repaint_erases_previous_frame_and_keeps_static() {
    let mut term = Splitter::new();
    term.paint(&lines(&["log 1"]), &lines(&["a", "b"]));
    let cmds = term.paint(&lines(&["log 2"]), &lines(&["c"]));
    assert_eq!(describe(&cmds), vec!["up 2", "clear 2", "write log 2", "write c"]);
    let cmds = term.paint(&lines(&[]), &lines(&[]));
    assert_eq!(describe(&cmds), vec!["up 1", "clear 1"]);
    assert_eq!(term.dynamic_height(), 0);
    let cmds = term.paint(&lines(&[]), &lines(&[]));
    assert!(cmds.is_empty());
}

#[test]
fn loop_renders_polls_and_sleeps() {
    let mut s = LoopState::new();
    assert_eq!(s.phase, Phase::Rendering);
    assert_eq!(s.step(LoopEvent::Painted), LoopAction::PollChanges);
    assert_eq!(s.step(LoopEvent::Polled(false)), LoopAction::Sleep);
    assert_eq!(s.phase, Phase::Idle);
    assert_eq!(s.step(LoopEvent::Wake), LoopAction::RenderPass);
    assert_eq!(s.step(LoopEvent::Painted), LoopAction::PollChanges);
    assert_eq!(s.step(LoopEvent::Polled(true)), LoopAction::RenderPass);
    assert_eq!(s.phase, Phase::Rendering);
}

#[test]
fn wakes_during_a_pass_coalesce_into_one_more_pass() {
    let mut s = LoopState::new();
    assert_eq!(s.step(LoopEvent::Wake), LoopAction::Nothing);
    assert_eq!(s.step(LoopEvent::Wake), LoopAction::Nothing);
    assert_eq!(s.step(LoopEvent::Painted), LoopAction::PollChanges);
    assert_eq!(s.step(LoopEvent::Wake), LoopAction::Nothing);
    assert_eq!(s.step(LoopEvent::Polled(false)), LoopAction::RenderPass);
    assert!(!s.wake_pending);
    assert_eq!(s.step(LoopEvent::Painted), LoopAction::PollChanges);
    assert_eq!(s.step(LoopEvent::Polled(false)), LoopAction::Sleep);
}

#[test]
fn stop_shuts_down_once() {
    let mut s = LoopState::new();
    assert_eq!(s.step(LoopEvent::Stop), LoopAction::Shutdown);
    assert_eq!(s.phase, Phase::Stopped);
    assert_eq!(s.step(LoopEvent::Wake), LoopAction::Nothing);
    assert_eq!(s.step(LoopEvent::Stop), LoopAction::Nothing);
}

#[test]
fn default_static_commits_nothing() {
    let component = Static::default();
    let other = Static::new(&StaticProps::new(lines(&["ignored"]), vec![]));
    let _ = (component, other);
    assert_eq!(Static::render(StaticProps::new(vec![], vec![])), "");
}
