use blink::attach::ControlAction;
use blink::attach_loop::{AttachEvent, AttachLoop, AttachOutput};
use blink::frames::{BufferedFrame, ExecSessionCore};
use blink::jobs::{plan_run, RunPlan, SandboxTier};
use blink::pty::{
    drain_step, reads_stderr, terminal_exit_code, DrainAction, DrainEvent, DrainState, TerminalEnd,
};
use blink::session::{memory_dir_next, MkdirNext, MkdirOutcome};

fn f(seq: u64, byte: u8) -> BufferedFrame {
    BufferedFrame { seq, bytes: vec![1, byte] }
}

#[test]
fn snapshot_frames_go_out_and_move_the_cursor() {
    let mut l = AttachLoop::new(0, false);
    let r = l.step(AttachEvent::Snapshot { frames: vec![f(1, b'a'), f(2, b'b')], exit_code: None });
    assert_eq!(r.outputs, vec![AttachOutput::Frame(vec![1, b'a']), AttachOutput::Frame(vec![1, b'b'])]);
    assert!(!r.flush && !r.stop);
    assert_eq!(l.cursor.last_sent_seq, 2);

    let r = l.step(AttachEvent::Live(f(2, b'b')));
    assert!(r.outputs.is_empty());
    let r = l.step(AttachEvent::Live(f(3, b'c')));
    assert_eq!(r.outputs, vec![AttachOutput::Frame(vec![1, b'c'])]);
    assert_eq!(l.cursor.last_sent_seq, 3);
}

#[test]
fn finished_execution_flushes_then_sends_exit() {
    let mut core = ExecSessionCore::new(1024);
    core.push_frame(vec![1, b'a']);
    core.mark_exit(7);
    let mut l = AttachLoop::new(0, true);
    let snap = core.snapshot_after(0);
    let r = l.step(AttachEvent::Snapshot { frames: snap.frames, exit_code: snap.exit_code.or(core.exit_code()) });
    assert_eq!(r.outputs.len(), 1);
    assert!(r.flush);
    let tail = core.snapshot_after(l.cursor.last_sent_seq);
    let r = l.step(AttachEvent::Flushed { tail: tail.frames, buffer_exit: None, watch_exit: None });
    assert_eq!(r.outputs, vec![AttachOutput::Exit(7), AttachOutput::Close]);
    assert!(r.stop);
}

#[test]
fn lag_recovers_from_the_buffer() {
    let mut l = AttachLoop::new(1, false);
    let r = l.step(AttachEvent::Lagged);
    assert!(r.flush && !r.stop && r.outputs.is_empty());
    let r = l.step(AttachEvent::Flushed {
        tail: vec![f(1, b'a'), f(2, b'b'), f(3, b'c')],
        buffer_exit: None,
        watch_exit: None,
    });
    assert_eq!(r.outputs, vec![AttachOutput::Frame(vec![1, b'b']), AttachOutput::Frame(vec![1, b'c'])]);
    assert!(!r.stop);
    assert_eq!(l.cursor.last_sent_seq, 3);
    assert_eq!(l.pending, None);
}

#[test]
fn broadcast_end_prefers_the_buffer_exit_code() {
    let mut l = AttachLoop::new(0, false);
    assert!(l.step(AttachEvent::BroadcastClosed).flush);
    let r = l.step(AttachEvent::Flushed { tail: vec![], buffer_exit: Some(1), watch_exit: Some(2) });
    assert_eq!(r.outputs, vec![AttachOutput::Exit(1), AttachOutput::Close]);
    assert!(r.stop);
}

#[test]
fn exit_watch_prefers_the_watched_code() {
    let mut l = AttachLoop::new(0, false);
    assert!(l.step(AttachEvent::ExitChanged).flush);
    let r = l.step(AttachEvent::Flushed { tail: vec![], buffer_exit: Some(1), watch_exit: Some(2) });
    assert_eq!(r.outputs, vec![AttachOutput::Exit(2), AttachOutput::Close]);

    let mut l = AttachLoop::new(0, false);
    l.step(AttachEvent::ExitChanged);
    let r = l.step(AttachEvent::Flushed { tail: vec![], buffer_exit: None, watch_exit: None });
    assert_eq!(r.outputs, vec![AttachOutput::Close]);
}

#[test]
fn exit_watch_gone_sends_a_known_code() {
    let mut l = AttachLoop::new(0, false);
    let r = l.step(AttachEvent::ExitWatchGone { buffer_exit: Some(4) });
    assert_eq!(r.outputs, vec![AttachOutput::Exit(4), AttachOutput::Close]);
    assert!(r.stop);
    let r = l.step(AttachEvent::ExitWatchGone { buffer_exit: None });
    assert!(r.outputs.is_empty() && r.stop);
}

#[test]
fn client_messages_reach_the_execution() {
    let mut l = AttachLoop::new(0, false);
    assert_eq!(l.step(AttachEvent::Binary(b"ls\n".to_vec())).outputs, vec![AttachOutput::Stdin(b"ls\n".to_vec())]);
    assert_eq!(
        l.step(AttachEvent::Text("{\"type\":\"stdin_eof\"}".to_string())).outputs,
        vec![AttachOutput::CloseStdin]
    );
    assert_eq!(
        l.step(AttachEvent::Text("{\"type\":\"resize\",\"rows\":10,\"cols\":20}".to_string())).outputs,
        vec![AttachOutput::Control(ControlAction::Resize { rows: 10, cols: 20 })]
    );
    let r = l.step(AttachEvent::Text("{\"type\":\"resize\"}".to_string()));
    assert_eq!(r.outputs, vec![AttachOutput::Error("resize.rows required".to_string())]);
    assert!(!r.stop);
    let r = l.step(AttachEvent::Text("not json".to_string()));
    assert_eq!(r.outputs, vec![AttachOutput::Error("invalid control JSON".to_string())]);
    assert!(!r.stop);
    assert!(l.step(AttachEvent::Other).outputs.is_empty());
    assert!(l.step(AttachEvent::ClientGone).stop);
}

#[test]
fn unrequested_flush_is_ignored() {
    let mut l = AttachLoop::new(5, false);
    let r = l.step(AttachEvent::Flushed { tail: vec![f(6, b'x')], buffer_exit: Some(0), watch_exit: None });
    assert!(r.outputs.is_empty() && !r.stop);
    assert_eq!(l.cursor.last_sent_seq, 5);
}

#[test]
fn run_plans() {
    assert_eq!(
        plan_run(SandboxTier::Ephemeral, None, None, false),
        RunPlan::Ephemeral { image: "alpine:3.20".to_string() }
    );
    assert_eq!(
        plan_run(SandboxTier::Session, Some("dev".to_string()), Some("ubuntu:24.04".to_string()), true),
        RunPlan::Session { name: "dev".to_string(), image: "ubuntu:24.04".to_string(), warm: true }
    );
}

#[test]
fn memory_dir_is_tried_three_times() {
    assert_eq!(memory_dir_next(0, MkdirOutcome::Exited(0)), MkdirNext::Done);
    assert_eq!(memory_dir_next(0, MkdirOutcome::Exited(1)), MkdirNext::RetryAfterPause);
    assert_eq!(memory_dir_next(1, MkdirOutcome::StartFailed), MkdirNext::RetryAfterPause);
    assert_eq!(memory_dir_next(2, MkdirOutcome::Exited(1)), MkdirNext::GiveUp);
    assert_eq!(memory_dir_next(2, MkdirOutcome::StartFailed), MkdirNext::Fail);
    assert_eq!(memory_dir_next(0, MkdirOutcome::WaitFailed), MkdirNext::Fail);
}

#[test]
fn live_frames_overlapping_the_snapshot_are_sent_once() {
    let mut l = AttachLoop::new(0, false);
    l.step(AttachEvent::Snapshot { frames: vec![f(1, b'a'), f(2, b'b')], exit_code: None });
    let mut sent = Vec::new();
    for g in [f(2, b'b'), f(3, b'c'), f(4, b'd')] {
        sent.extend(l.step(AttachEvent::Live(g)).outputs);
    }
    assert_eq!(sent, vec![AttachOutput::Frame(vec![1, b'c']), AttachOutput::Frame(vec![1, b'd'])]);
    assert_eq!(l.cursor.last_sent_seq, 4);
}

#[test]
fn drain_buffers_then_records_exit_once() {
    let (s, a) = drain_step(DrainState::Draining, DrainEvent::Output(vec![1, b'x']));
    assert_eq!((s, a), (DrainState::Draining, DrainAction::Buffer(vec![1, b'x'])));
    let (s, a) = drain_step(s, DrainEvent::OutputClosed);
    assert_eq!((s, a), (DrainState::AwaitingExit, DrainAction::WaitForExit));
    let (s2, a) = drain_step(s, DrainEvent::ExitReported(Some(3)));
    assert_eq!((s2, a), (DrainState::Done, DrainAction::RecordExitAndClose(3)));
    let (_, a) = drain_step(s, DrainEvent::ExitReported(None));
    assert_eq!(a, DrainAction::RecordExitAndClose(-1));
    let (s3, a) = drain_step(s2, DrainEvent::Output(vec![1]));
    assert_eq!((s3, a), (DrainState::Done, DrainAction::Nothing));
    let (_, a) = drain_step(DrainState::AwaitingExit, DrainEvent::Output(vec![1]));
    assert_eq!(a, DrainAction::Nothing);
}

#[test]
fn terminal_exit_codes() {
    assert_eq!(terminal_exit_code(TerminalEnd::Finished(5)), Some(5));
    assert_eq!(terminal_exit_code(TerminalEnd::Failed), None);
    assert_eq!(terminal_exit_code(TerminalEnd::Dropped), Some(-1));
    assert_eq!(terminal_exit_code(TerminalEnd::OutputEnded), Some(-1));
    assert!(reads_stderr(false));
    assert!(!reads_stderr(true));
}
