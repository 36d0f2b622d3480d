//! The attach loop of one WebSocket client as a state machine: which frames
//! go out, when the buffer is flushed, when the exit code is sent, and what
//! client messages do to the execution.

use vstd::prelude::*;

use crate::attach::{
    control_action_of, control_error_message, deliver_one, is_stdin_eof, parse_control_message,
    AttachCursor, ControlAction,
};
use crate::frames::{
    encode_frame, encoded_frame, frame_views, frames_after, lemma_filter_push, BufferedFrame,
    FrameView,
};
use crate::text::seq_contains;

verus! {

/// What to do once a requested flush of buffered frames is answered.
#[derive(Clone, Copy, Debug, PartialEq, Eq, Structural)]
pub enum AfterFlush {
    /// Keep streaming live frames.
    Resume,
    /// Send this exit code and close.
    Exit(i32),
    /// The broadcast ended: send the buffer's exit code, else the watched
    /// one, then close.
    BufferExitFirst,
    /// The exit watch fired: send the watched exit code, else the buffer's,
    /// then close.
    WatchExitFirst,
}

/// One attached client: its cursor and the flush it waits for, if any.
#[derive(Clone, Copy, Debug, PartialEq, Eq, Structural)]
pub struct AttachLoop {
    pub cursor: AttachCursor,
    pub pending: Option<AfterFlush>,
}

/// What happened, as the attach loop sees it.
#[derive(Clone, Debug)]
pub enum AttachEvent {
    /// The snapshot taken when the client attached, and the exit code known
    /// then (the snapshot's, else the buffer's).
    Snapshot { frames: Vec<BufferedFrame>, exit_code: Option<i32> },
    /// A live frame from the broadcast.
    Live(BufferedFrame),
    /// The broadcast skipped frames for this client.
    Lagged,
    /// The broadcast ended.
    BroadcastClosed,
    /// The exit watch changed.
    ExitChanged,
    /// The exit watch is gone; the buffer's exit code.
    ExitWatchGone { buffer_exit: Option<i32> },
    /// The answer to a flush: the buffered frames after the cursor, then the
    /// exit codes of the buffer and of the watch.
    Flushed { tail: Vec<BufferedFrame>, buffer_exit: Option<i32>, watch_exit: Option<i32> },
    /// A binary message: stdin bytes.
    Binary(Vec<u8>),
    /// A text message: a control request.
    Text(String),
    /// The client closed the socket, or reading from it failed.
    ClientGone,
    /// Any other client message.
    Other,
}

/// One thing to do towards the client or the execution.
#[derive(Clone, Debug, PartialEq, Eq)]
pub enum AttachOutput {
    /// Send these bytes as a binary message.
    Frame(Vec<u8>),
    /// Send `{"type":"exit","exit_code":N}` as a text message.
    Exit(i32),
    /// Close the socket.
    Close,
    /// Write these bytes to the execution's stdin.
    Stdin(Vec<u8>),
    /// Close the execution's stdin.
    CloseStdin,
    /// Apply a control request to the execution.
    Control(ControlAction),
    /// Send `{"type":"error","message":...}` as a text message.
    Error(String),
}

/// The answer to one event: outputs in order, whether to take a snapshot
/// after the cursor and hand it back as [`AttachEvent::Flushed`], and
/// whether to leave the loop.
pub struct AttachReaction {
    pub outputs: Vec<AttachOutput>,
    pub flush: bool,
    pub stop: bool,
}

/// An event, as values.
pub enum AttachEventView {
    Snapshot { frames: Seq<FrameView>, exit_code: Option<i32> },
    Live(FrameView),
    Lagged,
    BroadcastClosed,
    ExitChanged,
    ExitWatchGone { buffer_exit: Option<i32> },
    Flushed { tail: Seq<FrameView>, buffer_exit: Option<i32>, watch_exit: Option<i32> },
    Binary(Seq<u8>),
    Text(Seq<char>),
    ClientGone,
    Other,
}

/// An output, as values.
pub enum AttachOutputView {
    Frame(Seq<u8>),
    Exit(i32),
    Close,
    Stdin(Seq<u8>),
    CloseStdin,
    Control(ControlAction),
    Error(Seq<char>),
}

/// A reaction, as values.
pub struct AttachReactionView {
    pub outputs: Seq<AttachOutputView>,
    pub flush: bool,
    pub stop: bool,
}

impl View for AttachEvent {
    type V = AttachEventView;

    open spec fn view(&self) -> AttachEventView {
        match self {
            AttachEvent::Snapshot { frames, exit_code } => AttachEventView::Snapshot {
                frames: frame_views(frames@),
                exit_code: *exit_code,
            },
            AttachEvent::Live(f) => AttachEventView::Live(f@),
            AttachEvent::Lagged => AttachEventView::Lagged,
            AttachEvent::BroadcastClosed => AttachEventView::BroadcastClosed,
            AttachEvent::ExitChanged => AttachEventView::ExitChanged,
            AttachEvent::ExitWatchGone { buffer_exit } => AttachEventView::ExitWatchGone {
                buffer_exit: *buffer_exit,
            },
            AttachEvent::Flushed { tail, buffer_exit, watch_exit } => AttachEventView::Flushed {
                tail: frame_views(tail@),
                buffer_exit: *buffer_exit,
                watch_exit: *watch_exit,
            },
            AttachEvent::Binary(b) => AttachEventView::Binary(b@),
            AttachEvent::Text(t) => AttachEventView::Text(t@),
            AttachEvent::ClientGone => AttachEventView::ClientGone,
            AttachEvent::Other => AttachEventView::Other,
        }
    }
}

impl View for AttachOutput {
    type V = AttachOutputView;

    open spec fn view(&self) -> AttachOutputView {
        match self {
            AttachOutput::Frame(b) => AttachOutputView::Frame(b@),
            AttachOutput::Exit(c) => AttachOutputView::Exit(*c),
            AttachOutput::Close => AttachOutputView::Close,
            AttachOutput::Stdin(b) => AttachOutputView::Stdin(b@),
            AttachOutput::CloseStdin => AttachOutputView::CloseStdin,
            AttachOutput::Control(a) => AttachOutputView::Control(*a),
            AttachOutput::Error(m) => AttachOutputView::Error(m@),
        }
    }
}

/// The views of a list of outputs.
pub open spec fn outputs_view(v: Seq<AttachOutput>) -> Seq<AttachOutputView> {
    v.map_values(|o: AttachOutput| o@)
}

impl View for AttachReaction {
    type V = AttachReactionView;

    open spec fn view(&self) -> AttachReactionView {
        AttachReactionView { outputs: outputs_view(self.outputs@), flush: self.flush, stop: self.stop }
    }
}

/// One binary message per frame, framed as the client asked.
pub open spec fn frame_outputs(frames: Seq<FrameView>, seq_framing: bool) -> Seq<AttachOutputView> {
    frames.map_values(|f: FrameView| AttachOutputView::Frame(encoded_frame(f, seq_framing)))
}

/// The sequence number of the last frame, else `dflt`.
pub open spec fn last_seq_or(frames: Seq<FrameView>, dflt: u64) -> u64 {
    if frames.len() > 0 {
        frames.last().seq
    } else {
        dflt
    }
}

/// The first exit code that is known.
pub open spec fn either_exit(first: Option<i32>, second: Option<i32>) -> Option<i32> {
    match first {
        Some(c) => Some(c),
        None => second,
    }
}

/// The exit code, when known, then the close.
pub open spec fn exit_outputs(code: Option<i32>) -> Seq<AttachOutputView> {
    match code {
        Some(c) => seq![AttachOutputView::Exit(c), AttachOutputView::Close],
        None => seq![AttachOutputView::Close],
    }
}

/// A reaction made of these outputs.
pub open spec fn react(outputs: Seq<AttachOutputView>, flush: bool, stop: bool) -> AttachReactionView {
    AttachReactionView { outputs, flush, stop }
}

/// The loop's decision for one event.
pub open spec fn attach_step_spec(s: AttachLoop, e: AttachEventView) -> (AttachLoop, AttachReactionView) {
    let last = s.cursor.last_sent_seq;
    let framing = s.cursor.seq_framing;
    let none = Seq::<AttachOutputView>::empty();
    match e {
        AttachEventView::Snapshot { frames, exit_code } => {
            let cursor = AttachCursor { last_sent_seq: last_seq_or(frames, last), seq_framing: framing };
            match exit_code {
                Some(code) => (
                    AttachLoop { cursor, pending: Some(AfterFlush::Exit(code)) },
                    react(frame_outputs(frames, framing), true, false),
                ),
                None => (
                    AttachLoop { cursor, pending: s.pending },
                    react(frame_outputs(frames, framing), false, false),
                ),
            }
        },
        AttachEventView::Live(f) => match deliver_one(last, f) {
            (l, Some(g)) => (
                AttachLoop { cursor: AttachCursor { last_sent_seq: l, seq_framing: framing }, ..s },
                react(seq![AttachOutputView::Frame(encoded_frame(g, framing))], false, false),
            ),
            (_, None) => (s, react(none, false, false)),
        },
        AttachEventView::Lagged => (
            AttachLoop { pending: Some(AfterFlush::Resume), ..s },
            react(none, true, false),
        ),
        AttachEventView::BroadcastClosed => (
            AttachLoop { pending: Some(AfterFlush::BufferExitFirst), ..s },
            react(none, true, false),
        ),
        AttachEventView::ExitChanged => (
            AttachLoop { pending: Some(AfterFlush::WatchExitFirst), ..s },
            react(none, true, false),
        ),
        AttachEventView::ExitWatchGone { buffer_exit } => (
            s,
            react(
                match buffer_exit {
                    Some(c) => seq![AttachOutputView::Exit(c), AttachOutputView::Close],
                    None => none,
                },
                false,
                true,
            ),
        ),
        AttachEventView::Flushed { tail, buffer_exit, watch_exit } => match s.pending {
            None => (s, react(none, false, false)),
            Some(after) => {
                let sent = frames_after(tail, last);
                let cursor = AttachCursor { last_sent_seq: last_seq_or(sent, last), seq_framing: framing };
                let out = frame_outputs(sent, framing);
                let next = AttachLoop { cursor, pending: None };
                match after {
                    AfterFlush::Resume => (next, react(out, false, false)),
                    AfterFlush::Exit(code) => (next, react(out + exit_outputs(Some(code)), false, true)),
                    AfterFlush::BufferExitFirst => (
                        next,
                        react(out + exit_outputs(either_exit(buffer_exit, watch_exit)), false, true),
                    ),
                    AfterFlush::WatchExitFirst => (
                        next,
                        react(out + exit_outputs(either_exit(watch_exit, buffer_exit)), false, true),
                    ),
                }
            },
        },
        AttachEventView::Binary(b) => (s, react(seq![AttachOutputView::Stdin(b)], false, false)),
        AttachEventView::Text(t) => if seq_contains(t, "\"type\":\"stdin_eof\""@) {
            (s, react(seq![AttachOutputView::CloseStdin], false, false))
        } else {
            match control_action_of(t) {
                Ok(a) => (s, react(seq![AttachOutputView::Control(a)], false, false)),
                Err(e) => (
                    s,
                    react(seq![AttachOutputView::Error(control_error_message(e))], false, false),
                ),
            }
        },
        AttachEventView::ClientGone => (s, react(none, false, true)),
        AttachEventView::Other => (s, react(none, false, false)),
    }
}

/// Append one binary message per frame.
fn push_frames(out: &mut Vec<AttachOutput>, frames: &Vec<BufferedFrame>, seq_framing: bool)
    ensures
        outputs_view(final(out)@) == outputs_view(old(out)@) + frame_outputs(
            frame_views(frames@),
            seq_framing,
        ),
{
    let ghost start = outputs_view(out@);
    let ghost fv = frame_views(frames@);
    let mut i: usize = 0;
    while i < frames.len()
        invariant
            fv == frame_views(frames@),
            i <= frames@.len(),
            outputs_view(out@) == start + frame_outputs(fv.take(i as int), seq_framing),
        decreases frames@.len() - i,
    {
        let bytes = encode_frame(&frames[i], seq_framing);
        let ghost before = out@;
        out.push(AttachOutput::Frame(bytes));
        proof {
            assert(fv.take(i + 1) =~= fv.take(i as int).push(frames@[i as int]@));
            assert(frame_outputs(fv.take(i + 1), seq_framing) =~= frame_outputs(
                fv.take(i as int),
                seq_framing,
            ).push(AttachOutputView::Frame(encoded_frame(frames@[i as int]@, seq_framing))));
            assert(outputs_view(out@) =~= outputs_view(before).push(
                AttachOutputView::Frame(encoded_frame(frames@[i as int]@, seq_framing)),
            ));
        }
        i = i + 1;
    }
    proof {
        assert(fv.take(frames@.len() as int) =~= fv);
    }
}

/// Append the frames above `last`, in order; the newest sequence number
/// sent, else `last`.
fn push_frames_after(
    out: &mut Vec<AttachOutput>,
    tail: &Vec<BufferedFrame>,
    last: u64,
    seq_framing: bool,
) -> (newest: u64)
    ensures
        outputs_view(final(out)@) == outputs_view(old(out)@) + frame_outputs(
            frames_after(frame_views(tail@), last),
            seq_framing,
        ),
        newest == last_seq_or(frames_after(frame_views(tail@), last), last),
{
    let ghost start = outputs_view(out@);
    let ghost fv = frame_views(tail@);
    let ghost pred = |f: FrameView| f.seq > last;
    let mut newest = last;
    let mut i: usize = 0;
    while i < tail.len()
        invariant
            fv == frame_views(tail@),
            pred == (|f: FrameView| f.seq > last),
            i <= tail@.len(),
            outputs_view(out@) == start + frame_outputs(fv.take(i as int).filter(pred), seq_framing),
            newest == last_seq_or(fv.take(i as int).filter(pred), last),
        decreases tail@.len() - i,
    {
        let f = &tail[i];
        proof {
            assert(fv.take(i + 1) =~= fv.take(i as int).push(f@));
            lemma_filter_push(fv.take(i as int), pred, f@);
        }
        if f.seq > last {
            let bytes = encode_frame(f, seq_framing);
            let ghost before = out@;
            out.push(AttachOutput::Frame(bytes));
            newest = f.seq;
            proof {
                assert(pred(f@));
                let sent = fv.take(i as int).filter(pred);
                assert(frame_outputs(sent.push(f@), seq_framing) =~= frame_outputs(
                    sent,
                    seq_framing,
                ).push(AttachOutputView::Frame(encoded_frame(f@, seq_framing))));
                assert(outputs_view(out@) =~= outputs_view(before).push(
                    AttachOutputView::Frame(encoded_frame(f@, seq_framing)),
                ));
            }
        } else {
            proof {
                assert(!pred(f@));
            }
        }
        i = i + 1;
    }
    proof {
        assert(fv.take(tail@.len() as int) =~= fv);
    }
    newest
}

/// Append the exit code, when known, and the close.
fn push_exit(out: &mut Vec<AttachOutput>, code: Option<i32>)
    ensures
        outputs_view(final(out)@) == outputs_view(old(out)@) + exit_outputs(code),
{
    let ghost before = out@;
    match code {
        Some(c) => {
            out.push(AttachOutput::Exit(c));
            out.push(AttachOutput::Close);
        },
        None => {
            out.push(AttachOutput::Close);
        },
    }
    assert(outputs_view(out@) =~= outputs_view(before) + exit_outputs(code));
}

/// The first exit code that is known.
fn first_known(first: Option<i32>, second: Option<i32>) -> (r: Option<i32>)
    ensures
        r == either_exit(first, second),
{
    match first {
        Some(c) => Some(c),
        None => second,
    }
}

/// A reaction with one output.
fn single(o: AttachOutput) -> (r: AttachReaction)
    ensures
        r@ == react(seq![o@], false, false),
{
    let mut outputs: Vec<AttachOutput> = Vec::new();
    outputs.push(o);
    let r = AttachReaction { outputs, flush: false, stop: false };
    assert(r@.outputs =~= seq![o@]);
    r
}

/// A reaction with no output.
fn quiet(flush: bool, stop: bool) -> (r: AttachReaction)
    ensures
        r@ == react(Seq::empty(), flush, stop),
{
    let r = AttachReaction { outputs: Vec::new(), flush, stop };
    assert(r@.outputs =~= Seq::<AttachOutputView>::empty());
    r
}

impl AttachLoop {
    /// A client that attached after `after`, with or without seq framing.
    pub fn new(after: u64, seq_framing: bool) -> (r: Self)
        ensures
            r.cursor.last_sent_seq == after,
            r.cursor.seq_framing == seq_framing,
            r.pending is None,
    {
        AttachLoop { cursor: AttachCursor::new(after, seq_framing), pending: None }
    }

    /// Decide what one event does.
    pub fn step(&mut self, event: AttachEvent) -> (r: AttachReaction)
        ensures
            (*final(self), r@) == attach_step_spec(*old(self), event@),
    {
        let last = self.cursor.last_sent_seq;
        let framing = self.cursor.seq_framing;
        match event {
            AttachEvent::Snapshot { frames, exit_code } => {
                let mut outputs: Vec<AttachOutput> = Vec::new();
                push_frames(&mut outputs, &frames, framing);
                assert(outputs_view(outputs@) =~= frame_outputs(frame_views(frames@), framing));
                if frames.len() > 0 {
                    self.cursor.last_sent_seq = frames[frames.len() - 1].seq;
                }
                match exit_code {
                    Some(code) => {
                        self.pending = Some(AfterFlush::Exit(code));
                        AttachReaction { outputs, flush: true, stop: false }
                    },
                    None => AttachReaction { outputs, flush: false, stop: false },
                }
            },
            AttachEvent::Live(f) => match self.cursor.deliver(&f) {
                Some(bytes) => single(AttachOutput::Frame(bytes)),
                None => quiet(false, false),
            },
            AttachEvent::Lagged => {
                self.pending = Some(AfterFlush::Resume);
                quiet(true, false)
            },
            AttachEvent::BroadcastClosed => {
                self.pending = Some(AfterFlush::BufferExitFirst);
                quiet(true, false)
            },
            AttachEvent::ExitChanged => {
                self.pending = Some(AfterFlush::WatchExitFirst);
                quiet(true, false)
            },
            AttachEvent::ExitWatchGone { buffer_exit } => match buffer_exit {
                Some(c) => {
                    let mut outputs: Vec<AttachOutput> = Vec::new();
                    outputs.push(AttachOutput::Exit(c));
                    outputs.push(AttachOutput::Close);
                    let r = AttachReaction { outputs, flush: false, stop: true };
                    assert(r@.outputs =~= seq![AttachOutputView::Exit(c), AttachOutputView::Close]);
                    r
                },
                None => quiet(false, true),
            },
            AttachEvent::Flushed { tail, buffer_exit, watch_exit } => match self.pending {
                None => quiet(false, false),
                Some(after) => {
                    let mut outputs: Vec<AttachOutput> = Vec::new();
                    let newest = push_frames_after(&mut outputs, &tail, last, framing);
                    assert(outputs_view(outputs@) =~= frame_outputs(
                        frames_after(frame_views(tail@), last),
                        framing,
                    ));
                    self.cursor.last_sent_seq = newest;
                    self.pending = None;
                    match after {
                        AfterFlush::Resume => AttachReaction { outputs, flush: false, stop: false },
                        AfterFlush::Exit(code) => {
                            push_exit(&mut outputs, Some(code));
                            AttachReaction { outputs, flush: false, stop: true }
                        },
                        AfterFlush::BufferExitFirst => {
                            push_exit(&mut outputs, first_known(buffer_exit, watch_exit));
                            AttachReaction { outputs, flush: false, stop: true }
                        },
                        AfterFlush::WatchExitFirst => {
                            push_exit(&mut outputs, first_known(watch_exit, buffer_exit));
                            AttachReaction { outputs, flush: false, stop: true }
                        },
                    }
                },
            },
            AttachEvent::Binary(bytes) => single(AttachOutput::Stdin(bytes)),
            AttachEvent::Text(text) => {
                if is_stdin_eof(text.as_str()) {
                    single(AttachOutput::CloseStdin)
                } else {
                    match parse_control_message(text.as_str()) {
                        Ok(a) => single(AttachOutput::Control(a)),
                        Err(e) => single(AttachOutput::Error(e.message())),
                    }
                }
            },
            AttachEvent::ClientGone => quiet(false, true),
            AttachEvent::Other => quiet(false, false),
        }
    }
}

/// Outside the attach-time snapshot, the loop never sends a frame at or
/// below its cursor, and the cursor never moves back: a client never gets a
/// frame twice.
pub proof fn lemma_attach_never_resends(s: AttachLoop, e: AttachEventView)
    requires
        !(e is Snapshot),
    ensures
        ({
            let (t, _) = attach_step_spec(s, e);
            t.cursor.last_sent_seq >= s.cursor.last_sent_seq
        }),
        e matches AttachEventView::Live(f) ==> (attach_step_spec(s, e).1.outputs.len() > 0 ==> f.seq
            > s.cursor.last_sent_seq),
        e matches AttachEventView::Flushed { tail, .. } ==> forall|i: int|
            0 <= i < frames_after(tail, s.cursor.last_sent_seq).len() ==> #[trigger] frames_after(
                tail,
                s.cursor.last_sent_seq,
            )[i].seq > s.cursor.last_sent_seq,
{
    if let AttachEventView::Flushed { tail, .. } = e {
        let last = s.cursor.last_sent_seq;
        let pred = |f: FrameView| f.seq > last;
        tail.filter_lemma(pred);
        let sent = frames_after(tail, last);
        if sent.len() > 0 {
            assert(pred(sent[sent.len() - 1]));
        }
    }
}

/// Live frames handed to the loop one after another: the loop afterwards
/// and everything it sent.
pub open spec fn live_run(s: AttachLoop, frames: Seq<FrameView>) -> (AttachLoop, Seq<AttachOutputView>)
    decreases frames.len(),
{
    if frames.len() == 0 {
        (s, Seq::empty())
    } else {
        let (s1, out) = live_run(s, frames.drop_last());
        let (s2, r) = attach_step_spec(s1, AttachEventView::Live(frames.last()));
        (s2, out + r.outputs)
    }
}

/// No gap and no duplicate across the snapshot/live boundary: when live
/// frames arrive with consecutive sequence numbers from any `start` up to
/// one past the cursor (so they may overlap what was already sent), the loop
/// sends exactly those above the cursor, in order, each once, and its cursor
/// ends at the newest one.
pub proof fn lemma_live_frames_without_gaps(s: AttachLoop, frames: Seq<FrameView>, start: int)
    requires
        start <= s.cursor.last_sent_seq + 1,
        forall|i: int| 0 <= i < frames.len() ==> #[trigger] frames[i].seq == start + i,
    ensures
        ({
            let last = s.cursor.last_sent_seq as int;
            let n = frames.len() as int;
            let d: int = if last + 1 - start >= n {
                n
            } else if last + 1 - start <= 0 {
                0
            } else {
                last + 1 - start
            };
            let (t, out) = live_run(s, frames);
            &&& out == frame_outputs(frames.subrange(d, n), s.cursor.seq_framing)
            &&& t.cursor.last_sent_seq == if start + n - 1 > last {
                start + n - 1
            } else {
                last
            }
            &&& t.cursor.seq_framing == s.cursor.seq_framing
            &&& t.pending == s.pending
        }),
    decreases frames.len(),
{
    let last = s.cursor.last_sent_seq as int;
    let framing = s.cursor.seq_framing;
    let n = frames.len() as int;
    if n == 0 {
        assert(frame_outputs(frames.subrange(0, 0), framing) =~= Seq::<AttachOutputView>::empty());
    } else {
        let init = frames.drop_last();
        assert forall|i: int| 0 <= i < init.len() implies #[trigger] init[i].seq == start + i by {
            assert(init[i] == frames[i]);
        }
        lemma_live_frames_without_gaps(s, init, start);
        let (s1, out1) = live_run(s, init);
        let f = frames.last();
        assert(f == frames[n - 1]);
        let d: int = if last + 1 - start >= n {
            n
        } else if last + 1 - start <= 0 {
            0
        } else {
            last + 1 - start
        };
        let d1: int = if last + 1 - start >= n - 1 {
            n - 1
        } else if last + 1 - start <= 0 {
            0
        } else {
            last + 1 - start
        };
        if start + n - 1 > last {
            assert(d == d1);
            assert(frames.subrange(d, n) =~= init.subrange(d1, n - 1).push(f));
            assert(frame_outputs(frames.subrange(d, n), framing) =~= frame_outputs(
                init.subrange(d1, n - 1),
                framing,
            ).push(AttachOutputView::Frame(encoded_frame(f, framing))));
            assert(out1 + seq![AttachOutputView::Frame(encoded_frame(f, framing))] =~= out1.push(
                AttachOutputView::Frame(encoded_frame(f, framing)),
            ));
        } else {
            assert(d == n);
            assert(frames.subrange(d, n) =~= init.subrange(d1, n - 1));
            assert(out1 + Seq::<AttachOutputView>::empty() =~= out1);
        }
    }
}

/// Every frame the loop sends is framed as the client asked: the snapshot's
/// frames, in order, each once, like live and flushed frames; and no event
/// changes the framing.
pub proof fn lemma_frames_use_client_framing(s: AttachLoop, e: AttachEventView)
    ensures
        attach_step_spec(s, e).0.cursor.seq_framing == s.cursor.seq_framing,
        e matches AttachEventView::Snapshot { frames, .. } ==> ({
            let out = attach_step_spec(s, e).1.outputs;
            &&& out.len() == frames.len()
            &&& forall|i: int|
                0 <= i < frames.len() ==> out[i] == AttachOutputView::Frame(
                    encoded_frame(#[trigger] frames[i], s.cursor.seq_framing),
                )
        }),
        e matches AttachEventView::Live(f) ==> ({
            let out = attach_step_spec(s, e).1.outputs;
            &&& f.seq > s.cursor.last_sent_seq ==> out == seq![
                AttachOutputView::Frame(encoded_frame(f, s.cursor.seq_framing)),
            ]
            &&& f.seq <= s.cursor.last_sent_seq ==> out.len() == 0
        }),
        e matches AttachEventView::Flushed { tail, .. } ==> (s.pending is Some ==> ({
            let out = attach_step_spec(s, e).1.outputs;
            let sent = frames_after(tail, s.cursor.last_sent_seq);
            &&& out.len() >= sent.len()
            &&& forall|i: int|
                0 <= i < sent.len() ==> out[i] == AttachOutputView::Frame(
                    encoded_frame(#[trigger] sent[i], s.cursor.seq_framing),
                )
        })),
{
    if let AttachEventView::Flushed { tail, buffer_exit, watch_exit } = e {
        if s.pending is Some {
            let sent = frames_after(tail, s.cursor.last_sent_seq);
            let fo = frame_outputs(sent, s.cursor.seq_framing);
            assert forall|x: Seq<AttachOutputView>, i: int| 0 <= i < fo.len() implies (fo + x)[i]
                == fo[i] by {}
        }
    }
}

} // verus!
