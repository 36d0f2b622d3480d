//! Spawned executions: the spawn request, the initial PTY size and the
//! output frames bridged to attached clients.

use std::collections::HashMap;

use vstd::prelude::*;

use crate::text::strs_view;

verus! {

/// Channel byte of stdout frames.
pub const STDOUT_CHANNEL: u8 = 1;

/// Channel byte of stderr frames (pipe mode only).
pub const STDERR_CHANNEL: u8 = 2;

/// Request to spawn a command inside a sandbox.
#[derive(Clone, Debug)]
pub struct SpawnSpec {
    pub command: String,
    pub args: Vec<String>,
    pub env: HashMap<String, String>,
    pub tty: bool,
    pub rows: Option<u32>,
    pub cols: Option<u32>,
    pub working_dir: Option<String>,
}

impl SpawnSpec {
    /// The PTY size to apply right after spawning: only with a TTY and when
    /// both rows and columns are given.
    pub fn initial_resize(&self) -> (r: Option<(u32, u32)>)
        ensures
            r == if self.tty && self.rows is Some && self.cols is Some {
                Some((self.rows->0, self.cols->0))
            } else {
                None
            },
    {
        if self.tty {
            if let (Some(rows), Some(cols)) = (self.rows, self.cols) {
                return Some((rows, cols));
            }
        }
        None
    }
}

/// Why a command line could not be spawned.
#[derive(Clone, Copy, Debug, PartialEq, Eq, Structural)]
pub enum SpawnError {
    /// No command after `--`.
    CommandRequired,
}

/// A spawn request from a command line `command args...`, with no extra
/// environment and the default working directory.
pub fn spawn_spec_from_argv(argv: Vec<String>, tty: bool, rows: Option<u32>, cols: Option<u32>) -> (r:
    Result<SpawnSpec, SpawnError>)
    ensures
        argv@.len() == 0 ==> r == Err::<SpawnSpec, SpawnError>(SpawnError::CommandRequired),
        argv@.len() > 0 ==> (r matches Ok(spec) && spec.command@ == argv@[0]@ && strs_view(
            spec.args@,
        ) == strs_view(argv@.drop_first()) && spec.env@ == Map::<String, String>::empty()
            && spec.tty == tty && spec.rows == rows && spec.cols == cols
            && spec.working_dir is None),
{
    if argv.len() == 0 {
        return Err(SpawnError::CommandRequired);
    }
    let mut rest = argv;
    let command = rest.remove(0);
    Ok(
        SpawnSpec {
            command,
            args: rest,
            env: HashMap::new(),
            tty,
            rows,
            cols,
            working_dir: None,
        },
    )
}

/// An output frame: channel byte, then the chunk.
pub fn output_frame(channel: u8, chunk: &[u8]) -> (r: Vec<u8>)
    ensures
        r@ == seq![channel] + chunk@,
{
    let mut out: Vec<u8> = Vec::new();
    out.push(channel);
    let mut i: usize = 0;
    while i < chunk.len()
        invariant
            i <= chunk@.len(),
            out@ == seq![channel] + chunk@.subrange(0, i as int),
        decreases chunk@.len() - i,
    {
        out.push(chunk[i]);
        i = i + 1;
        assert(out@ =~= seq![channel] + chunk@.subrange(0, i as int));
    }
    assert(chunk@.subrange(0, chunk@.len() as int) =~= chunk@);
    out
}

/// What a local terminal prints of a frame: the payload of a stdout frame,
/// of a stderr frame in pipe mode, else the frame as it is.
pub open spec fn local_payload_of(frame: Seq<u8>, tty: bool) -> Seq<u8> {
    if frame.len() > 0 && ((frame[0] == STDERR_CHANNEL && !tty) || frame[0] == STDOUT_CHANNEL) {
        frame.subrange(1, frame.len() as int)
    } else {
        frame
    }
}

/// The bytes a local terminal prints for a frame.
pub fn local_output_payload(frame: &[u8], tty: bool) -> (r: Vec<u8>)
    ensures
        r@ == local_payload_of(frame@, tty),
{
    let strip = frame.len() > 0 && ((frame[0] == STDERR_CHANNEL && !tty) || frame[0]
        == STDOUT_CHANNEL);
    let start: usize = if strip {
        1
    } else {
        0
    };
    let mut out: Vec<u8> = Vec::new();
    let mut i = start;
    while i < frame.len()
        invariant
            start <= i <= frame@.len(),
            out@ == frame@.subrange(start as int, i as int),
        decreases frame@.len() - i,
    {
        out.push(frame[i]);
        i = i + 1;
        assert(out@ =~= frame@.subrange(start as int, i as int));
    }
    assert(frame@.subrange(0, frame@.len() as int) =~= frame@);
    out
}

/// The exit code of a finished execution, or the runtime's message when it
/// did not complete normally.
pub fn execution_exit(exit_code: i32, error_message: Option<String>) -> (r: Result<i32, String>)
    ensures
        match error_message {
            Some(m) => r matches Err(e) && e@ == m@,
            None => r == Ok::<i32, String>(exit_code),
        },
{
    match error_message {
        Some(m) => Err(m),
        None => Ok(exit_code),
    }
}

/// How the I/O pump of an execution ended, as its exit watcher sees it.
#[derive(Clone, Debug, PartialEq, Eq)]
pub enum PumpEnd {
    /// The execution finished with this exit code.
    Finished(i32),
    /// The pump reported an error.
    Failed(String),
    /// The pump went away without a report.
    Dropped,
}

/// The exit code recorded for an execution: its own, or `-1` when the pump
/// failed or went away.
pub fn recorded_exit_code(end: &PumpEnd) -> (r: i32)
    ensures
        r == match end {
            PumpEnd::Finished(code) => *code,
            _ => -1i32,
        },
{
    match end {
        PumpEnd::Finished(code) => *code,
        PumpEnd::Failed(_) => -1,
        PumpEnd::Dropped => -1,
    }
}

/// Whether an execution's stderr is read separately: only without a TTY,
/// where a terminal merges it into stdout.
pub fn reads_stderr(tty: bool) -> (r: bool)
    ensures
        r == !tty,
{
    !tty
}

/// How a local terminal attachment ended.
#[derive(Clone, Copy, Debug, PartialEq, Eq, Structural)]
pub enum TerminalEnd {
    /// The execution finished with this exit code.
    Finished(i32),
    /// The pump reported an error.
    Failed,
    /// The pump went away without a report.
    Dropped,
    /// The output stream to the terminal ended first.
    OutputEnded,
}

/// The exit code a local terminal reports: the execution's own, `-1` when
/// the pump went away or the output ended first, or none when the pump's
/// error is to be reported instead.
pub fn terminal_exit_code(end: TerminalEnd) -> (r: Option<i32>)
    ensures
        r == match end {
            TerminalEnd::Finished(code) => Some(code),
            TerminalEnd::Failed => None,
            TerminalEnd::Dropped => Some(-1i32),
            TerminalEnd::OutputEnded => Some(-1i32),
        },
{
    match end {
        TerminalEnd::Finished(code) => Some(code),
        TerminalEnd::Failed => None,
        TerminalEnd::Dropped => Some(-1),
        TerminalEnd::OutputEnded => Some(-1),
    }
}

/// Where the drain of an execution's output into its buffer stands.
#[derive(Clone, Copy, Debug, PartialEq, Eq, Structural)]
pub enum DrainState {
    /// Output frames are still arriving.
    Draining,
    /// The output has ended; the exit code is awaited.
    AwaitingExit,
    /// The exit is recorded and the live broadcast closed.
    Done,
}

/// What the drain task observed.
#[derive(Clone, Debug, PartialEq, Eq)]
pub enum DrainEvent {
    /// An output frame.
    Output(Vec<u8>),
    /// The output stream ended.
    OutputClosed,
    /// The exit code reported by the exit watcher, if it reported one.
    ExitReported(Option<i32>),
}

/// What the drain task does next.
#[derive(Clone, Debug, PartialEq, Eq)]
pub enum DrainAction {
    /// Buffer this frame and broadcast it.
    Buffer(Vec<u8>),
    /// Wait for the exit code.
    WaitForExit,
    /// Record this exit code, then close the live broadcast.
    RecordExitAndClose(i32),
    /// Nothing.
    Nothing,
}

/// A drain event, as values.
pub enum DrainEventView {
    Output(Seq<u8>),
    OutputClosed,
    ExitReported(Option<i32>),
}

/// A drain action, as values.
pub enum DrainActionView {
    Buffer(Seq<u8>),
    WaitForExit,
    RecordExitAndClose(i32),
    Nothing,
}

impl View for DrainEvent {
    type V = DrainEventView;

    open spec fn view(&self) -> DrainEventView {
        match self {
            DrainEvent::Output(b) => DrainEventView::Output(b@),
            DrainEvent::OutputClosed => DrainEventView::OutputClosed,
            DrainEvent::ExitReported(c) => DrainEventView::ExitReported(*c),
        }
    }
}

impl View for DrainAction {
    type V = DrainActionView;

    open spec fn view(&self) -> DrainActionView {
        match self {
            DrainAction::Buffer(b) => DrainActionView::Buffer(b@),
            DrainAction::WaitForExit => DrainActionView::WaitForExit,
            DrainAction::RecordExitAndClose(c) => DrainActionView::RecordExitAndClose(*c),
            DrainAction::Nothing => DrainActionView::Nothing,
        }
    }
}

/// The drain's decision: every frame is buffered while output arrives; once
/// it ends, the reported exit code (`-1` when none came) is recorded and the
/// broadcast closed, once.
pub open spec fn drain_step_spec(state: DrainState, e: DrainEventView) -> (DrainState, DrainActionView) {
    match (state, e) {
        (DrainState::Draining, DrainEventView::Output(b)) => (
            DrainState::Draining,
            DrainActionView::Buffer(b),
        ),
        (DrainState::Draining, DrainEventView::OutputClosed) => (
            DrainState::AwaitingExit,
            DrainActionView::WaitForExit,
        ),
        (DrainState::AwaitingExit, DrainEventView::ExitReported(code)) => (
            DrainState::Done,
            DrainActionView::RecordExitAndClose(
                match code {
                    Some(c) => c,
                    None => -1i32,
                },
            ),
        ),
        _ => (state, DrainActionView::Nothing),
    }
}

/// Decide what the drain does with one event.
pub fn drain_step(state: DrainState, event: DrainEvent) -> (r: (DrainState, DrainAction))
    ensures
        (r.0, r.1@) == drain_step_spec(state, event@),
{
    match (state, event) {
        (DrainState::Draining, DrainEvent::Output(b)) => (DrainState::Draining, DrainAction::Buffer(b)),
        (DrainState::Draining, DrainEvent::OutputClosed) => (
            DrainState::AwaitingExit,
            DrainAction::WaitForExit,
        ),
        (DrainState::AwaitingExit, DrainEvent::ExitReported(code)) => (
            DrainState::Done,
            DrainAction::RecordExitAndClose(
                match code {
                    Some(c) => c,
                    None => -1,
                },
            ),
        ),
        (s, _) => (s, DrainAction::Nothing),
    }
}

/// Once the output has ended, no frame is buffered any more, and the exit is
/// recorded only after the output has ended: every frame is in the buffer
/// before the exit code, and the broadcast closes after the last frame.
pub proof fn lemma_drain_exit_after_output(state: DrainState, e: DrainEventView)
    ensures
        state != DrainState::Draining ==> drain_step_spec(state, e).0 != DrainState::Draining
            && !(drain_step_spec(state, e).1 is Buffer),
        drain_step_spec(state, e).1 is RecordExitAndClose ==> state == DrainState::AwaitingExit,
        state == DrainState::Done ==> drain_step_spec(state, e).1 is Nothing,
{
}

/// A stdout frame prints without its channel byte in both modes; a stderr
/// frame prints without it in pipe mode and whole under a TTY; any other
/// frame prints whole.
pub proof fn lemma_local_payload_channels(p: Seq<u8>, first: u8, tty: bool)
    ensures
        local_payload_of(seq![STDOUT_CHANNEL] + p, tty) == p,
        local_payload_of(seq![STDERR_CHANNEL] + p, false) == p,
        local_payload_of(seq![STDERR_CHANNEL] + p, true) == seq![STDERR_CHANNEL] + p,
        first != STDOUT_CHANNEL && first != STDERR_CHANNEL ==> local_payload_of(seq![first] + p, tty)
            == seq![first] + p,
        local_payload_of(Seq::empty(), tty) == Seq::<u8>::empty(),
{
    assert((seq![STDOUT_CHANNEL] + p).subrange(1, p.len() as int + 1) =~= p);
    assert((seq![STDERR_CHANNEL] + p).subrange(1, p.len() as int + 1) =~= p);
    assert((seq![STDOUT_CHANNEL] + p)[0] == STDOUT_CHANNEL);
    assert((seq![STDERR_CHANNEL] + p)[0] == STDERR_CHANNEL);
    assert((seq![first] + p)[0] == first);
}

} // verus!
