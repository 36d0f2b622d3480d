//! Output buffer of one execution: every output frame gets a monotonic `seq`,
//! a bounded ring keeps the most recent frames so that a re-attach with a
//! cursor can backfill what it missed.

use std::collections::VecDeque;

use vstd::prelude::*;

use crate::clock::{is_utc_rfc3339_text, utc_now_rfc3339};
use crate::text::opt_str_view;

verus! {

/// Default ring size in bytes (`BLINK_ATTACH_BUFFER_BYTES`).
pub const DEFAULT_ATTACH_BUFFER_BYTES: usize = 1048576;

/// Default time an exited execution stays attachable (`BLINK_ATTACH_LINGER_SECS`).
pub const DEFAULT_ATTACH_LINGER_SECS: u64 = 300;

/// One output frame: `[channel, payload...]` tagged with its sequence number.
#[derive(Clone, Debug, PartialEq, Eq)]
pub struct BufferedFrame {
    pub seq: u64,
    pub bytes: Vec<u8>,
}

/// Mathematical view of a frame.
pub struct FrameView {
    pub seq: u64,
    pub bytes: Seq<u8>,
}

impl View for BufferedFrame {
    type V = FrameView;

    open spec fn view(&self) -> FrameView {
        FrameView { seq: self.seq, bytes: self.bytes@ }
    }
}

impl BufferedFrame {
    /// A copy of this frame.
    pub fn duplicate(&self) -> (r: BufferedFrame)
        ensures
            r@ == self@,
    {
        let bytes = self.bytes.clone();
        assert(bytes@ =~= self.bytes@);
        BufferedFrame { seq: self.seq, bytes }
    }
}

/// The views of a sequence of frames.
pub open spec fn frame_views(frames: Seq<BufferedFrame>) -> Seq<FrameView> {
    frames.map_values(|f: BufferedFrame| f@)
}

/// Frames buffered after a cursor, with the ring's bounds and the exit code.
#[derive(Clone, Debug, Default, PartialEq, Eq)]
pub struct FrameSnapshot {
    pub first_seq: u64,
    pub head_seq: u64,
    pub frames: Vec<BufferedFrame>,
    pub exit_code: Option<i32>,
}

/// Total payload bytes held by a sequence of frames.
pub open spec fn frame_bytes_total(frames: Seq<FrameView>) -> nat
    decreases frames.len(),
{
    if frames.len() == 0 {
        0
    } else {
        frames[0].bytes.len() + frame_bytes_total(frames.drop_first())
    }
}

/// Drop frames from the front while more than one frame remains and the total
/// exceeds `limit`.
pub open spec fn evict_to_limit(frames: Seq<FrameView>, limit: nat) -> Seq<FrameView>
    decreases frames.len(),
{
    if frames.len() > 1 && frame_bytes_total(frames) > limit {
        evict_to_limit(frames.drop_first(), limit)
    } else {
        frames
    }
}

/// `head + 1`, saturating at `u64::MAX`.
pub open spec fn next_seq(head: u64) -> u64 {
    if head == u64::MAX {
        u64::MAX
    } else {
        (head + 1) as u64
    }
}

/// `first + i`, saturating at `u64::MAX`.
pub open spec fn seq_at(first: u64, i: int) -> u64 {
    if first + i > u64::MAX {
        u64::MAX
    } else {
        (first + i) as u64
    }
}

/// The frames of `frames` whose sequence number is above `after`.
pub open spec fn frames_after(frames: Seq<FrameView>, after: u64) -> Seq<FrameView> {
    frames.filter(|f: FrameView| f.seq > after)
}

/// Mathematical view of the output buffer of one execution.
pub struct ExecSessionCoreView {
    pub frames: Seq<FrameView>,
    pub buffered_bytes: nat,
    pub first_seq: u64,
    pub head_seq: u64,
    pub exit_code: Option<i32>,
    /// When the exit was recorded (RFC 3339), if it was.
    pub finished_at: Option<Seq<char>>,
    pub closed: bool,
    pub buffer_limit_bytes: nat,
}

impl ExecSessionCoreView {
    /// The buffer invariant: byte count in step with the frames, consecutive
    /// sequence numbers from `first_seq` to `head_seq`, and the ring within its
    /// limit unless it holds a single frame.
    pub open spec fn wf(self) -> bool {
        &&& self.buffer_limit_bytes >= 1
        &&& self.buffered_bytes == frame_bytes_total(self.frames)
        &&& self.frames.len() == 0 ==> self.head_seq == 0 && self.first_seq == 0
        &&& self.frames.len() > 0 ==> {
            &&& self.first_seq >= 1
            &&& self.first_seq == self.frames[0].seq
            &&& self.head_seq == self.frames.last().seq
            &&& (self.frames.len() == 1 || self.buffered_bytes <= self.buffer_limit_bytes)
        }
        &&& forall|i: int|
            0 <= i < self.frames.len() ==> #[trigger] self.frames[i].seq == seq_at(
                self.first_seq,
                i,
            )
    }

    /// The snapshot a client with cursor `after` is served.
    pub open spec fn snapshot_after(self, after: u64) -> (u64, u64, Seq<FrameView>, Option<i32>) {
        (self.first_seq, self.head_seq, frames_after(self.frames, after), self.exit_code)
    }
}

/// The output buffer and exit record of one execution.
pub struct ExecSessionCore {
    buffer: VecDeque<BufferedFrame>,
    buffered_bytes: usize,
    first_seq: u64,
    head_seq: u64,
    exit_code: Option<i32>,
    finished_at: Option<String>,
    closed: bool,
    buffer_limit_bytes: usize,
}

impl View for ExecSessionCore {
    type V = ExecSessionCoreView;

    closed spec fn view(&self) -> ExecSessionCoreView {
        ExecSessionCoreView {
            frames: frame_views(self.buffer@),
            buffered_bytes: self.buffered_bytes as nat,
            first_seq: self.first_seq,
            head_seq: self.head_seq,
            exit_code: self.exit_code,
            finished_at: opt_str_view(self.finished_at),
            closed: self.closed,
            buffer_limit_bytes: self.buffer_limit_bytes as nat,
        }
    }
}

proof fn lemma_total_push(frames: Seq<FrameView>, f: FrameView)
    ensures
        frame_bytes_total(frames.push(f)) == frame_bytes_total(frames) + f.bytes.len(),
    decreases frames.len(),
{
    if frames.len() > 0 {
        assert(frames.push(f).drop_first() =~= frames.drop_first().push(f));
        assert(frames.push(f)[0] == frames[0]);
        lemma_total_push(frames.drop_first(), f);
        assert(frame_bytes_total(frames.push(f)) == frames.push(f)[0].bytes.len()
            + frame_bytes_total(frames.push(f).drop_first()));
    } else {
        assert(frames.push(f).drop_first() =~= Seq::<FrameView>::empty());
        assert(frames.push(f)[0] == f);
        assert(frame_bytes_total(frames.push(f)) == frames.push(f)[0].bytes.len()
            + frame_bytes_total(frames.push(f).drop_first()));
        assert(frame_bytes_total(frames) == 0);
    }
}

pub(crate) proof fn lemma_filter_push<A>(s: Seq<A>, pred: spec_fn(A) -> bool, e: A)
    ensures
        pred(e) ==> s.push(e).filter(pred) == s.filter(pred).push(e),
        !pred(e) ==> s.push(e).filter(pred) == s.filter(pred),
{
    reveal(Seq::filter);
    assert(s.push(e).drop_last() =~= s);
}

proof fn lemma_total_first(frames: Seq<FrameView>)
    requires
        frames.len() > 0,
    ensures
        frame_bytes_total(frames) >= frames[0].bytes.len(),
{
}

/// Eviction keeps a non-empty suffix that is within the limit or a single
/// frame, and every longer suffix is over the limit.
proof fn lemma_evict_suffix(frames: Seq<FrameView>, limit: nat) -> (k: int)
    requires
        frames.len() > 0,
    ensures
        0 <= k < frames.len(),
        evict_to_limit(frames, limit) == frames.subrange(k, frames.len() as int),
        evict_to_limit(frames, limit).len() == 1 || frame_bytes_total(evict_to_limit(frames, limit))
            <= limit,
        forall|j: int|
            0 <= j < k ==> #[trigger] frame_bytes_total(frames.subrange(j, frames.len() as int))
                > limit,
    decreases frames.len(),
{
    let n = frames.len() as int;
    if frames.len() > 1 && frame_bytes_total(frames) > limit {
        let rest = frames.drop_first();
        let k0 = lemma_evict_suffix(rest, limit);
        assert(rest.subrange(k0, rest.len() as int) =~= frames.subrange(k0 + 1, n));
        assert forall|j: int| 0 <= j < k0 + 1 implies #[trigger] frame_bytes_total(
            frames.subrange(j, n),
        ) > limit by {
            if j == 0 {
                assert(frames.subrange(0, n) =~= frames);
            } else {
                assert(rest.subrange(j - 1, rest.len() as int) =~= frames.subrange(j, n));
            }
        }
        k0 + 1
    } else {
        assert(frames.subrange(0, n) =~= frames);
        0
    }
}

/// The ring drops the oldest frames first and no more than needed: what it
/// keeps is the longest suffix whose bytes fit the limit, or the last frame
/// alone when even that one is over the limit.
pub proof fn lemma_eviction_keeps_longest_fitting_suffix(frames: Seq<FrameView>, limit: nat)
    requires
        frames.len() > 0,
    ensures
        exists|k: int|
            0 <= k < frames.len() && #[trigger] evict_to_limit(frames, limit) == frames.subrange(
                k,
                frames.len() as int,
            ) && (frame_bytes_total(frames.subrange(k, frames.len() as int)) <= limit || k
                == frames.len() - 1) && forall|j: int|
                0 <= j < k ==> #[trigger] frame_bytes_total(frames.subrange(j, frames.len() as int))
                    > limit,
{
    let k = lemma_evict_suffix(frames, limit);
    assert(evict_to_limit(frames, limit).len() == frames.len() - k);
}

/// Keeping only elements that fail `pred` leaves nothing.
proof fn lemma_filter_none<A>(s: Seq<A>, pred: spec_fn(A) -> bool)
    requires
        forall|i: int| 0 <= i < s.len() ==> !pred(#[trigger] s[i]),
    ensures
        s.filter(pred) == Seq::<A>::empty(),
    decreases s.len(),
{
    reveal(Seq::filter);
    if s.len() > 0 {
        let init = s.drop_last();
        assert forall|i: int| 0 <= i < init.len() implies !pred(#[trigger] init[i]) by {
            assert(init[i] == s[i]);
        }
        lemma_filter_none(init, pred);
        assert(!pred(s[s.len() - 1]));
    }
}

/// Sequence numbers advance by one: the frame a push adds carries the old
/// head plus one, becomes the new head, and is exactly what a client that
/// had seen everything up to the old head is served next.
pub proof fn lemma_push_advances_by_one(
    core: ExecSessionCoreView,
    next: ExecSessionCoreView,
    f: FrameView,
)
    requires
        core.wf(),
        core.head_seq < u64::MAX,
        f.seq == next_seq(core.head_seq),
        next.frames == evict_to_limit(core.frames.push(f), core.buffer_limit_bytes),
        next.head_seq == f.seq,
    ensures
        f.seq == core.head_seq + 1,
        next.head_seq == core.head_seq + 1,
        next.snapshot_after(core.head_seq).2 == seq![f],
{
    let all = core.frames.push(f);
    let n = all.len() as int;
    let k = lemma_evict_suffix(all, core.buffer_limit_bytes);
    let kept = all.subrange(k, n);
    let pred = |g: FrameView| g.seq > core.head_seq;
    let init = kept.drop_last();
    assert forall|i: int| 0 <= i < init.len() implies !pred(#[trigger] init[i]) by {
        assert(init[i] == core.frames[k + i]);
        let fr = core.frames;
        assert(fr[fr.len() - 1].seq == seq_at(core.first_seq, fr.len() - 1));
        assert(fr.last() == fr[fr.len() - 1]);
        assert(fr[k + i].seq == seq_at(core.first_seq, k + i));
    }
    lemma_filter_none(init, pred);
    assert(kept =~= init.push(f));
    lemma_filter_push(init, pred, f);
    assert(init.filter(pred).push(f) =~= seq![f]);
}

proof fn lemma_seq_at_shift(first: u64, k: int, i: int)
    requires
        0 <= k,
        0 <= i,
    ensures
        seq_at(seq_at(first, k), i) == seq_at(first, k + i),
{
}

/// Keeping the frames above a cursor from consecutively numbered frames is
/// dropping a prefix.
proof fn lemma_filter_consecutive(frames: Seq<FrameView>, first: u64, after: u64)
    requires
        first + frames.len() <= u64::MAX,
        forall|i: int| 0 <= i < frames.len() ==> #[trigger] frames[i].seq == first + i,
    ensures
        frames_after(frames, after) == frames.subrange(
            if after + 1 - first <= 0 {
                0
            } else if after + 1 - first >= frames.len() {
                frames.len() as int
            } else {
                after + 1 - first
            },
            frames.len() as int,
        ),
    decreases frames.len(),
{
    reveal(Seq::filter);
    let pred = |f: FrameView| f.seq > after;
    if frames.len() == 0 {
        assert(frames.subrange(0, 0) =~= frames);
    } else {
        let sub = frames.drop_last();
        assert forall|i: int| 0 <= i < sub.len() implies #[trigger] sub[i].seq == first + i by {
            assert(sub[i] == frames[i]);
        }
        lemma_filter_consecutive(sub, first, after);
        let n = frames.len() as int;
        let j = if after + 1 - first <= 0 {
            0
        } else if after + 1 - first >= n {
            n
        } else {
            after + 1 - first
        };
        let j2 = if after + 1 - first <= 0 {
            0
        } else if after + 1 - first >= n - 1 {
            n - 1
        } else {
            after + 1 - first
        };
        assert(frames.last().seq == first + n - 1);
        assert(frames.filter(pred) == if pred(frames.last()) {
            sub.filter(pred).push(frames.last())
        } else {
            sub.filter(pred)
        });
        if pred(frames.last()) {
            assert(j == j2);
            assert(sub.subrange(j2, n - 1).push(frames.last()) =~= frames.subrange(j, n));
        } else {
            assert(j == n);
            assert(sub.subrange(j2, n - 1) =~= frames.subrange(j, n));
        }
    }
}

/// Re-attach with a cursor: the snapshot after `after` holds exactly the
/// buffered frames numbered from `max(after + 1, first_seq)` up to `head_seq`,
/// in order, each once, with no gap.
pub proof fn lemma_snapshot_resumes_without_gaps(core: ExecSessionCoreView, after: u64)
    requires
        core.wf(),
        core.head_seq < u64::MAX,
    ensures
        ({
            let s = frames_after(core.frames, after);
            let start: int = if after + 1 > core.first_seq {
                after + 1
            } else {
                core.first_seq as int
            };
            &&& (core.frames.len() == 0 || after >= core.head_seq) ==> s.len() == 0
            &&& (core.frames.len() > 0 && after < core.head_seq) ==> {
                &&& s.len() == core.head_seq - start + 1
                &&& forall|i: int| 0 <= i < s.len() ==> #[trigger] s[i].seq == start + i
            }
        }),
{
    let fr = core.frames;
    if fr.len() == 0 {
        reveal(Seq::filter);
        assert(frames_after(fr, after) =~= Seq::<FrameView>::empty());
    } else {
        let first = core.first_seq;
        assert(fr.last() == fr[fr.len() - 1]);
        assert(fr[fr.len() - 1].seq == seq_at(first, fr.len() - 1));
        assert(first + fr.len() - 1 <= core.head_seq);
        assert forall|i: int| 0 <= i < fr.len() implies #[trigger] fr[i].seq == first + i by {
            assert(fr[i].seq == seq_at(first, i));
        }
        lemma_filter_consecutive(fr, first, after);
    }
}

/// After the exit is recorded, every later snapshot carries the exit code and
/// the buffered frames are unchanged.
pub proof fn lemma_exit_replayed_to_late_attach(
    core: ExecSessionCoreView,
    code: i32,
    at: Seq<char>,
    after: u64,
)
    requires
        core.wf(),
    ensures
        ({
            let done = ExecSessionCoreView {
                exit_code: Some(code),
                closed: true,
                finished_at: Some(at),
                ..core
            };
            &&& done.wf()
            &&& done.snapshot_after(after).3 == Some(code)
            &&& done.snapshot_after(after).2 == core.snapshot_after(after).2
        }),
{
}

impl ExecSessionCore {
    /// An empty buffer holding at most `buffer_limit_bytes` bytes (at least 1).
    pub fn new(buffer_limit_bytes: usize) -> (r: Self)
        ensures
            r@.wf(),
            r@.frames.len() == 0,
            r@.first_seq == 0,
            r@.head_seq == 0,
            r@.exit_code is None,
            r@.finished_at is None,
            !r@.closed,
            r@.buffer_limit_bytes == if buffer_limit_bytes >= 1 {
                buffer_limit_bytes as nat
            } else {
                1
            },
    {
        let limit = if buffer_limit_bytes >= 1 { buffer_limit_bytes } else { 1 };
        let r = ExecSessionCore {
            buffer: VecDeque::new(),
            buffered_bytes: 0,
            first_seq: 0,
            head_seq: 0,
            exit_code: None,
            finished_at: None,
            closed: false,
            buffer_limit_bytes: limit,
        };
        assert(r@.frames =~= Seq::<FrameView>::empty());
        r
    }

    /// Bytes currently held by the ring.
    pub fn buffered_bytes(&self) -> (r: usize)
        ensures
            r == self@.buffered_bytes,
    {
        self.buffered_bytes
    }

    /// Append a frame with the next sequence number, then evict the oldest
    /// frames while the ring is over its limit and holds more than one frame.
    pub fn push_frame(&mut self, bytes: Vec<u8>) -> (frame: BufferedFrame)
        requires
            old(self)@.wf(),
            old(self)@.buffered_bytes + bytes@.len() <= usize::MAX,
        ensures
            final(self)@.wf(),
            frame@ == (FrameView { seq: next_seq(old(self)@.head_seq), bytes: bytes@ }),
            final(self)@.frames == evict_to_limit(
                old(self)@.frames.push(frame@),
                old(self)@.buffer_limit_bytes,
            ),
            final(self)@.head_seq == frame.seq,
            final(self)@.frames.len() >= 1,
            final(self)@.frames.last() == frame@,
            final(self)@.exit_code == old(self)@.exit_code,
            final(self)@.finished_at == old(self)@.finished_at,
            final(self)@.closed == old(self)@.closed,
            final(self)@.buffer_limit_bytes == old(self)@.buffer_limit_bytes,
    {
        let ghost old_view = self@;
        let seq = self.head_seq.saturating_add(1);
        let frame_bytes = bytes.len();
        let frame = BufferedFrame { seq, bytes };
        if self.first_seq == 0 {
            self.first_seq = seq;
        }
        self.head_seq = seq;
        self.buffered_bytes = self.buffered_bytes + frame_bytes;
        self.buffer.push_back(frame.duplicate());
        let ghost all = old_view.frames.push(frame@);
        let ghost limit = old_view.buffer_limit_bytes;
        proof {
            lemma_total_push(old_view.frames, frame@);
            assert(frame_views(self.buffer@) =~= all);
            assert(all.subrange(0, all.len() as int) =~= all);
            // sequence numbers of the appended sequence are consecutive from the old first
            let first0: u64 = if old_view.frames.len() == 0 {
                1
            } else {
                old_view.first_seq
            };
            assert forall|i: int| 0 <= i < all.len() implies #[trigger] all[i].seq == seq_at(
                first0,
                i,
            ) by {
                if i < old_view.frames.len() {
                    assert(all[i] == old_view.frames[i]);
                } else {
                    if old_view.frames.len() > 0 {
                        assert(old_view.frames.last().seq == old_view.frames[old_view.frames.len()
                            - 1].seq);
                    }
                }
            }
        }
        let ghost first0: u64 = if old_view.frames.len() == 0 {
            1
        } else {
            old_view.first_seq
        };
        while self.buffered_bytes > self.buffer_limit_bytes && self.buffer.len() > 1
            invariant
                self.buffer_limit_bytes as nat == limit,
                limit >= 1,
                frame_views(self.buffer@).len() >= 1,
                self.buffered_bytes as nat == frame_bytes_total(frame_views(self.buffer@)),
                evict_to_limit(frame_views(self.buffer@), limit) == evict_to_limit(all, limit),
                exists|k: int|
                    0 <= k < all.len() && frame_views(self.buffer@) == #[trigger] all.subrange(
                        k,
                        all.len() as int,
                    ),
                self.head_seq == seq,
                self.exit_code == old_view.exit_code,
                opt_str_view(self.finished_at) == old_view.finished_at,
                self.closed == old_view.closed,
            decreases self.buffer@.len(),
        {
            let ghost cur = frame_views(self.buffer@);
            let evicted = self.buffer.pop_front();
            proof {
                lemma_total_first(cur);
                assert(frame_views(self.buffer@) =~= cur.drop_first());
                let k = choose|k: int|
                    0 <= k < all.len() && cur == #[trigger] all.subrange(k, all.len() as int);
                assert(cur.drop_first() =~= all.subrange(k + 1, all.len() as int));
            }
            if let Some(ev) = evicted {
                self.buffered_bytes = self.buffered_bytes.saturating_sub(ev.bytes.len());
            }
        }
        let ghost fin = frame_views(self.buffer@);
        proof {
            let k = choose|k: int|
                0 <= k < all.len() && fin == #[trigger] all.subrange(k, all.len() as int);
            assert(fin[0] == all[k]);
            assert forall|i: int| 0 <= i < fin.len() implies #[trigger] fin[i].seq == seq_at(
                fin[0].seq,
                i,
            ) by {
                assert(fin[i] == all[k + i]);
                assert(all[k + i].seq == seq_at(first0, k + i));
                assert(all[k].seq == seq_at(first0, k));
                lemma_seq_at_shift(first0, k, i);
            }
            assert(fin.last() == all.last());
            assert(all.last() == frame@);
            assert(all[k].seq == seq_at(first0, k));
            assert(fin[0].seq >= 1);
        }
        let front_seq = self.buffer[0].seq;
        self.first_seq = front_seq;
        frame
    }

    /// The buffered frames with `seq > after`, with the ring's bounds and the
    /// exit code.
    pub fn snapshot_after(&self, after: u64) -> (r: FrameSnapshot)
        requires
            self@.wf(),
        ensures
            (r.first_seq, r.head_seq, frame_views(r.frames@), r.exit_code) == self@.snapshot_after(
                after,
            ),
    {
        let mut frames: Vec<BufferedFrame> = Vec::new();
        let n = self.buffer.len();
        let ghost all = frame_views(self.buffer@);
        let ghost pred = |f: FrameView| f.seq > after;
        let mut i: usize = 0;
        while i < n
            invariant
                n == self.buffer@.len(),
                all == frame_views(self.buffer@),
                i <= n,
                pred == (|f: FrameView| f.seq > after),
                frame_views(frames@) == all.take(i as int).filter(pred),
            decreases n - i,
        {
            let f = &self.buffer[i];
            proof {
                assert(all.take(i + 1) =~= all.take(i as int).push(f@));
                lemma_filter_push(all.take(i as int), pred, f@);
            }
            let ghost before = frames@;
            if f.seq > after {
                let d = f.duplicate();
                frames.push(d);
                proof {
                    assert(pred(f@));
                    assert(frame_views(frames@) =~= frame_views(before).push(f@));
                }
            } else {
                proof {
                    assert(!pred(f@));
                    assert(frame_views(frames@) =~= frame_views(before));
                }
            }
            assert(frame_views(frames@) == all.take(i + 1).filter(pred));
            i = i + 1;
        }
        proof {
            assert(all.take(n as int) =~= all);
        }
        FrameSnapshot {
            first_seq: self.first_seq,
            head_seq: self.head_seq,
            frames,
            exit_code: self.exit_code,
        }
    }

    /// Record the exit code and the time `at` (RFC 3339); the execution is
    /// closed from now on.
    pub fn mark_exit_at(&mut self, code: i32, at: String)
        requires
            old(self)@.wf(),
        ensures
            final(self)@ == (ExecSessionCoreView {
                exit_code: Some(code),
                closed: true,
                finished_at: Some(at@),
                ..old(self)@
            }),
    {
        self.exit_code = Some(code);
        self.closed = true;
        self.finished_at = Some(at);
    }

    /// Record the exit code at the current time; the execution is closed
    /// from now on.
    pub fn mark_exit(&mut self, code: i32)
        requires
            old(self)@.wf(),
        ensures
            final(self)@.finished_at matches Some(t) && is_utc_rfc3339_text(t),
            final(self)@ == (ExecSessionCoreView {
                exit_code: Some(code),
                closed: true,
                finished_at: final(self)@.finished_at,
                ..old(self)@
            }),
    {
        let now = utc_now_rfc3339();
        self.mark_exit_at(code, now);
    }

    pub fn exit_code(&self) -> (r: Option<i32>)
        ensures
            r == self@.exit_code,
    {
        self.exit_code
    }

    pub fn is_closed(&self) -> (r: bool)
        ensures
            r == self@.closed,
    {
        self.closed
    }

    pub fn head_seq(&self) -> (r: u64)
        ensures
            r == self@.head_seq,
    {
        self.head_seq
    }

    pub fn first_seq(&self) -> (r: u64)
        ensures
            r == self@.first_seq,
    {
        self.first_seq
    }

    /// When the exit was recorded (RFC 3339), if it was.
    pub fn finished_at(&self) -> (r: Option<String>)
        ensures
            opt_str_view(r) == self@.finished_at,
    {
        match &self.finished_at {
            Some(t) => Some(t.clone()),
            None => None,
        }
    }
}


/// Big-endian bytes of a `u64`.
pub open spec fn be_bytes_u64(x: u64) -> Seq<u8> {
    seq![
        (x >> 56u64) as u8,
        (x >> 48u64) as u8,
        (x >> 40u64) as u8,
        (x >> 32u64) as u8,
        (x >> 24u64) as u8,
        (x >> 16u64) as u8,
        (x >> 8u64) as u8,
        x as u8,
    ]
}

/// The `u64` that eight big-endian bytes stand for.
pub open spec fn u64_from_be(b: Seq<u8>) -> u64 {
    ((b[0] as u64) << 56u64) | ((b[1] as u64) << 48u64) | ((b[2] as u64) << 40u64) | ((
    b[3] as u64) << 32u64) | ((b[4] as u64) << 24u64) | ((b[5] as u64) << 16u64) | ((
    b[6] as u64) << 8u64) | (b[7] as u64)
}

/// Reading the eight bytes back gives the number.
pub proof fn lemma_be_bytes_u64_roundtrip(x: u64)
    ensures
        u64_from_be(be_bytes_u64(x)) == x,
{
    let b = be_bytes_u64(x);
    let b0 = b[0];
    let b1 = b[1];
    let b2 = b[2];
    let b3 = b[3];
    let b4 = b[4];
    let b5 = b[5];
    let b6 = b[6];
    let b7 = b[7];
    assert(((b0 as u64) << 56u64) | ((b1 as u64) << 48u64) | ((b2 as u64) << 40u64) | ((
    b3 as u64) << 32u64) | ((b4 as u64) << 24u64) | ((b5 as u64) << 16u64) | ((b6 as u64)
        << 8u64) | (b7 as u64) == x) by (bit_vector)
        requires
            b0 == (x >> 56u64) as u8,
            b1 == (x >> 48u64) as u8,
            b2 == (x >> 40u64) as u8,
            b3 == (x >> 32u64) as u8,
            b4 == (x >> 24u64) as u8,
            b5 == (x >> 16u64) as u8,
            b6 == (x >> 8u64) as u8,
            b7 == x as u8,
    ;
}

/// The channel byte of a frame (`0` for an empty frame).
pub open spec fn frame_channel(bytes: Seq<u8>) -> u8 {
    if bytes.len() > 0 {
        bytes[0]
    } else {
        0
    }
}

/// The payload of a frame: everything after the channel byte.
pub open spec fn frame_payload(bytes: Seq<u8>) -> Seq<u8> {
    if bytes.len() > 1 {
        bytes.subrange(1, bytes.len() as int)
    } else {
        Seq::empty()
    }
}

/// Wire form of a frame: as buffered, or with seq framing
/// `[channel][seq: u64 big-endian][payload...]`.
pub open spec fn encoded_frame(f: FrameView, seq_framing: bool) -> Seq<u8> {
    if !seq_framing {
        f.bytes
    } else {
        seq![frame_channel(f.bytes)] + be_bytes_u64(f.seq) + frame_payload(f.bytes)
    }
}

/// A seq-framed frame carries the channel first, then the cursor the client
/// records, then the payload.
pub proof fn lemma_seq_framing_layout(f: FrameView)
    ensures
        ({
            let e = encoded_frame(f, true);
            &&& e.len() == 9 + frame_payload(f.bytes).len()
            &&& e[0] == frame_channel(f.bytes)
            &&& u64_from_be(e.subrange(1, 9)) == f.seq
            &&& e.subrange(9, e.len() as int) == frame_payload(f.bytes)
        }),
{
    let e = encoded_frame(f, true);
    lemma_be_bytes_u64_roundtrip(f.seq);
    assert(e.subrange(1, 9) =~= be_bytes_u64(f.seq));
    assert(e.subrange(9, e.len() as int) =~= frame_payload(f.bytes));
}

/// Encode a frame for the attach socket.
pub fn encode_frame(frame: &BufferedFrame, seq_framing: bool) -> (r: Vec<u8>)
    ensures
        r@ == encoded_frame(frame@, seq_framing),
{
    if !seq_framing {
        let out = frame.bytes.clone();
        assert(out@ =~= frame.bytes@);
        return out;
    }
    let mut out: Vec<u8> = Vec::new();
    let channel: u8 = if frame.bytes.len() > 0 {
        frame.bytes[0]
    } else {
        0
    };
    out.push(channel);
    let seq = frame.seq;
    out.push((seq >> 56u64) as u8);
    out.push((seq >> 48u64) as u8);
    out.push((seq >> 40u64) as u8);
    out.push((seq >> 32u64) as u8);
    out.push((seq >> 24u64) as u8);
    out.push((seq >> 16u64) as u8);
    out.push((seq >> 8u64) as u8);
    out.push(seq as u8);
    let ghost head = out@;
    assert(head =~= seq![frame_channel(frame.bytes@)] + be_bytes_u64(seq));
    if frame.bytes.len() > 1 {
        let n = frame.bytes.len();
        let mut i: usize = 1;
        while i < n
            invariant
                n == frame.bytes@.len(),
                1 <= i <= n,
                out@ == head + frame.bytes@.subrange(1, i as int),
            decreases n - i,
        {
            out.push(frame.bytes[i]);
            i = i + 1;
            assert(out@ =~= head + frame.bytes@.subrange(1, i as int));
        }
    } else {
        assert(out@ =~= head + frame_payload(frame.bytes@));
    }
    out
}

} // verus!
