//! Attach protocol of a spawned execution: query options, delivery of
//! output frames without duplicates, and client control messages.

use vstd::prelude::*;

use crate::frames::{encode_frame, encoded_frame, BufferedFrame, FrameView};
use crate::json::{
    json_get_i64, json_get_str, json_get_u64, json_i64_field, json_is_valid, json_parses,
    json_str_field, json_u64_field,
};
use crate::text::{ascii_lowercase_seq, eq_ascii_lowercase, opt_str_view, seq_contains, str_contains, str_to_chars, trim_seq, trim_str};

verus! {

broadcast use vstd::string::group_string_axioms;

/// Whether a query value turns an option on: `1`, `true`, `yes` or `on`,
/// any ASCII case, surrounding whitespace ignored.
pub open spec fn boolish(value: Option<Seq<char>>) -> bool {
    match value {
        Some(v) => {
            let w = ascii_lowercase_seq(trim_seq(v));
            w == "1"@ || w == "true"@ || w == "yes"@ || w == "on"@
        },
        None => false,
    }
}

/// Whether a query value turns an option on.
pub fn parse_boolish(value: Option<&str>) -> (r: bool)
    ensures
        r == boolish(
            match value {
                Some(v) => Some(v@),
                None => None,
            },
        ),
{
    match value {
        Some(v) => {
            let t = trim_str(v);
            let w = str_to_chars(t.as_str());
            eq_ascii_lowercase(&w, "1") || eq_ascii_lowercase(&w, "true") || eq_ascii_lowercase(
                &w,
                "yes",
            ) || eq_ascii_lowercase(&w, "on")
        },
        None => false,
    }
}

/// Query of an attach request: `after=<seq>` resumes from a cursor,
/// `seq=1` turns on seq framing (implied by `after`).
#[derive(Clone, Debug, Default, PartialEq, Eq)]
pub struct AttachQuery {
    pub after: Option<u64>,
    pub seq: Option<String>,
    pub seq_framing: bool,
}

impl AttachQuery {
    /// Decide seq framing from the query.
    pub fn finalize(self) -> (r: Self)
        ensures
            r.after == self.after,
            r.seq == self.seq,
            r.seq_framing == (self.after is Some || boolish(
                match self.seq {
                    Some(s) => Some(s@),
                    None => None,
                },
            )),
    {
        let framing = match &self.seq {
            Some(s) => parse_boolish(Some(s.as_str())),
            None => parse_boolish(None),
        };
        AttachQuery { seq_framing: self.after.is_some() || framing, ..self }
    }
}

/// Whether a text frame from the client asks to close stdin.
pub fn is_stdin_eof(text: &str) -> (r: bool)
    ensures
        r == seq_contains(text@, "\"type\":\"stdin_eof\""@),
{
    str_contains(text, "\"type\":\"stdin_eof\"")
}

/// Delivery of one frame to a client whose cursor is `last`: frames at or
/// below the cursor were sent already.
pub open spec fn deliver_one(last: u64, f: FrameView) -> (u64, Option<FrameView>) {
    if f.seq <= last {
        (last, None)
    } else {
        (f.seq, Some(f))
    }
}

/// Delivery of frames in order, from cursor `last`: the new cursor and the
/// frames sent.
pub open spec fn deliver_all(last: u64, frames: Seq<FrameView>) -> (u64, Seq<FrameView>)
    decreases frames.len(),
{
    if frames.len() == 0 {
        (last, Seq::empty())
    } else {
        let (l, sent) = deliver_all(last, frames.drop_last());
        match deliver_one(l, frames.last()) {
            (l2, Some(f)) => (l2, sent.push(f)),
            (l2, None) => (l2, sent),
        }
    }
}

/// The cursor of one attached client.
#[derive(Clone, Copy, Debug, PartialEq, Eq, Structural)]
pub struct AttachCursor {
    /// Sequence number of the newest frame sent (or the `after` asked for).
    pub last_sent_seq: u64,
    /// Whether frames carry their sequence number.
    pub seq_framing: bool,
}

impl AttachCursor {
    pub fn new(after: u64, seq_framing: bool) -> (r: Self)
        ensures
            r.last_sent_seq == after,
            r.seq_framing == seq_framing,
    {
        AttachCursor { last_sent_seq: after, seq_framing }
    }

    /// The wire bytes of a live frame, unless it was sent already.
    pub fn deliver(&mut self, frame: &BufferedFrame) -> (r: Option<Vec<u8>>)
        ensures
            final(self).seq_framing == old(self).seq_framing,
            (final(self).last_sent_seq, match r {
                Some(_) => Some(frame@),
                None => None::<FrameView>,
            }) == deliver_one(old(self).last_sent_seq, frame@),
            r matches Some(bytes) ==> bytes@ == encoded_frame(frame@, old(self).seq_framing),
    {
        if frame.seq <= self.last_sent_seq {
            None
        } else {
            self.last_sent_seq = frame.seq;
            Some(encode_frame(frame, self.seq_framing))
        }
    }
}

/// What `deliver_all` sends is strictly increasing, all above the starting
/// cursor and at most the new cursor, which is the last one sent: a client
/// never receives a frame twice, nor one at or below the cursor it gave.
pub proof fn lemma_delivery_has_no_duplicates(last: u64, frames: Seq<FrameView>)
    ensures
        ({
            let (l, sent) = deliver_all(last, frames);
            &&& l >= last
            &&& forall|i: int| 0 <= i < sent.len() ==> last < #[trigger] sent[i].seq <= l
            &&& forall|i: int, j: int| 0 <= i < j < sent.len() ==> sent[i].seq < sent[j].seq
            &&& sent.len() > 0 ==> l == sent.last().seq
            &&& sent.len() == 0 ==> l == last
        }),
    decreases frames.len(),
{
    if frames.len() > 0 {
        lemma_delivery_has_no_duplicates(last, frames.drop_last());
    }
}

/// Control request of an attached client.
#[derive(Clone, Copy, Debug, PartialEq, Eq, Structural)]
pub enum ControlAction {
    /// Resize the PTY.
    Resize { rows: u32, cols: u32 },
    /// Send a Unix signal.
    Signal(i32),
    /// Close stdin.
    StdinEof,
    /// Unknown or missing type: nothing to do.
    Ignore,
}

/// A control message that cannot be acted on.
#[derive(Clone, Copy, Debug, PartialEq, Eq, Structural)]
pub enum ControlError {
    /// Not JSON ("invalid control JSON").
    InvalidJson,
    /// A resize without `rows` ("resize.rows required").
    MissingRows,
    /// A resize without `cols` ("resize.cols required").
    MissingCols,
    /// A signal without `signal` ("signal required").
    MissingSignal,
}

/// The message shown for a control error.
pub open spec fn control_error_message(e: ControlError) -> Seq<char> {
    match e {
        ControlError::InvalidJson => "invalid control JSON"@,
        ControlError::MissingRows => "resize.rows required"@,
        ControlError::MissingCols => "resize.cols required"@,
        ControlError::MissingSignal => "signal required"@,
    }
}

impl ControlError {
    /// The message shown for this error.
    pub fn message(&self) -> (r: String)
        ensures
            r@ == control_error_message(*self),
    {
        match self {
            ControlError::InvalidJson => String::from_str("invalid control JSON"),
            ControlError::MissingRows => String::from_str("resize.rows required"),
            ControlError::MissingCols => String::from_str("resize.cols required"),
            ControlError::MissingSignal => String::from_str("signal required"),
        }
    }
}

/// What a control message asks for, from what its JSON holds: whether it
/// parses, the `type` string, the `rows` and `cols` numbers and the
/// `signal` number.
pub open spec fn control_action_of_fields(
    valid: bool,
    ty: Option<Seq<char>>,
    rows: Option<u64>,
    cols: Option<u64>,
    signal: Option<i64>,
) -> Result<ControlAction, ControlError> {
    if !valid {
        Err(ControlError::InvalidJson)
    } else if ty == Some("resize"@) {
        match rows {
            None => Err(ControlError::MissingRows),
            Some(r) => match cols {
                None => Err(ControlError::MissingCols),
                Some(c) => Ok(ControlAction::Resize { rows: r as u32, cols: c as u32 }),
            },
        }
    } else if ty == Some("signal"@) {
        match signal {
            None => Err(ControlError::MissingSignal),
            Some(s) => Ok(ControlAction::Signal(s as i32)),
        }
    } else if ty == Some("stdin_eof"@) {
        Ok(ControlAction::StdinEof)
    } else {
        Ok(ControlAction::Ignore)
    }
}

/// What a control text frame asks for.
pub open spec fn control_action_of(text: Seq<char>) -> Result<ControlAction, ControlError> {
    control_action_of_fields(
        json_is_valid(text),
        json_str_field(text, "type"@),
        json_u64_field(text, "rows"@),
        json_u64_field(text, "cols"@),
        json_i64_field(text, "signal"@),
    )
}

/// Decide a control message from what its JSON holds.
pub fn control_action_from_fields(
    valid: bool,
    ty: Option<String>,
    rows: Option<u64>,
    cols: Option<u64>,
    signal: Option<i64>,
) -> (r: Result<ControlAction, ControlError>)
    ensures
        r == control_action_of_fields(valid, opt_str_view(ty), rows, cols, signal),
{
    if !valid {
        return Err(ControlError::InvalidJson);
    }
    let kind: u8 = match &ty {
        Some(s) => {
            if *s == String::from_str("resize") {
                1
            } else if *s == String::from_str("signal") {
                2
            } else if *s == String::from_str("stdin_eof") {
                3
            } else {
                0
            }
        },
        None => 0,
    };
    if kind == 1 {
        match rows {
            None => Err(ControlError::MissingRows),
            Some(r) => match cols {
                None => Err(ControlError::MissingCols),
                Some(c) => Ok(ControlAction::Resize { rows: r as u32, cols: c as u32 }),
            },
        }
    } else if kind == 2 {
        match signal {
            None => Err(ControlError::MissingSignal),
            Some(s) => Ok(ControlAction::Signal(s as i32)),
        }
    } else if kind == 3 {
        Ok(ControlAction::StdinEof)
    } else {
        Ok(ControlAction::Ignore)
    }
}

/// Read a control text frame: `{"type":"resize","rows":R,"cols":C}`,
/// `{"type":"signal","signal":N}` or `{"type":"stdin_eof"}`.
pub fn parse_control_message(text: &str) -> (r: Result<ControlAction, ControlError>)
    ensures
        r == control_action_of(text@),
{
    let valid = json_parses(text);
    let ty = json_get_str(text, "type");
    let rows = json_get_u64(text, "rows");
    let cols = json_get_u64(text, "cols");
    let signal = json_get_i64(text, "signal");
    control_action_from_fields(valid, ty, rows, cols, signal)
}

} // verus!
