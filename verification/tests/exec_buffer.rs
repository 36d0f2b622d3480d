use blink::frames::{encode_frame, BufferedFrame, ExecSessionCore};

fn frame(bytes: &[u8]) -> Vec<u8> {
    bytes.to_vec()
}

#[test]
fn assigns_monotonic_seqs_and_evicts_by_total_bytes() {
    let mut core = ExecSessionCore::new(5);
    assert_eq!(core.push_frame(frame(&[0x01, b'a'])).seq, 1);
    assert_eq!(core.push_frame(frame(&[0x01, b'b'])).seq, 2);
    assert_eq!(core.push_frame(frame(&[0x01, b'c'])).seq, 3);
    assert_eq!(core.head_seq(), 3);
    assert_eq!(core.first_seq(), 2);

    let snapshot = core.snapshot_after(0);
    assert_eq!(snapshot.first_seq, 2);
    assert_eq!(snapshot.head_seq, 3);
    assert_eq!(snapshot.frames.len(), 2);
    assert_eq!(snapshot.frames[0].seq, 2);
    assert_eq!(snapshot.frames[1].seq, 3);
}

#[test]
fn seq_framing_inserts_cursor_after_channel_byte() {
    let frame = BufferedFrame {
        seq: 0x0102_0304_0506_0708,
        bytes: vec![0x01, b'h', b'i'],
    };

    let encoded = encode_frame(&frame, true);
    assert_eq!(encoded[0], 0x01);
    assert_eq!(&encoded[1..9], &frame.seq.to_be_bytes());
    assert_eq!(&encoded[9..], b"hi");
}

#[test]
fn records_exit_code_and_replays_it_to_late_attachments() {
    let mut core = ExecSessionCore::new(1024);
    assert_eq!(core.exit_code(), None);
    core.mark_exit(7);
    assert_eq!(core.exit_code(), Some(7));
    assert!(core.is_closed());
    assert!(core.finished_at().is_some());
    let at = core.finished_at().unwrap();
    assert!(at.len() >= 25 && at.ends_with("+00:00"));
    let snapshot = core.snapshot_after(0);
    assert_eq!(snapshot.exit_code, Some(7));
}

#[test]
fn snapshot_after_recovers_tail_after_cursor_even_with_eviction() {
    let mut core = ExecSessionCore::new(5);
    for idx in 1..=5 {
        core.push_frame(frame(&[0x01, b'0' + idx as u8]));
    }

    let snapshot = core.snapshot_after(3);
    assert_eq!(snapshot.first_seq, 4);
    assert_eq!(snapshot.head_seq, 5);
    assert_eq!(snapshot.frames.len(), 2);
    assert_eq!(
        snapshot.frames.iter().map(|f| f.seq).collect::<Vec<_>>(),
        vec![4, 5]
    );
}

#[test]
fn frames_pushed_before_exit_stay_in_the_snapshot() {
    let mut core = ExecSessionCore::new(1024);
    core.push_frame(frame(&[0x01, b'a']));
    core.push_frame(frame(&[0x01, b'b']));
    core.mark_exit(9);

    let snapshot = core.snapshot_after(0);
    assert_eq!(snapshot.frames.len(), 2);
    assert_eq!(snapshot.frames[0].seq, 1);
    assert_eq!(snapshot.frames[1].seq, 2);
    assert_eq!(snapshot.exit_code, Some(9));
    assert_eq!(core.exit_code(), Some(9));
    assert!(core.is_closed());
}

#[test]
fn snapshot_after_head_is_empty_and_keeps_cursors() {
    let mut core = ExecSessionCore::new(1024);
    core.push_frame(frame(&[0x01, b'a']));
    core.push_frame(frame(&[0x02, b'b']));
    let snapshot = core.snapshot_after(2);
    assert!(snapshot.frames.is_empty());
    assert_eq!(snapshot.first_seq, 1);
    assert_eq!(snapshot.head_seq, 2);
    assert_eq!(snapshot.exit_code, None);
}

#[test]
fn a_frame_larger_than_the_limit_is_kept_alone() {
    let mut core = ExecSessionCore::new(3);
    core.push_frame(frame(&[0x01, b'a']));
    let big = core.push_frame(frame(&[0x01, b'x', b'y', b'z', b'w']));
    assert_eq!(big.seq, 2);
    assert_eq!(core.first_seq(), 2);
    assert_eq!(core.buffered_bytes(), 5);
    let snapshot = core.snapshot_after(0);
    assert_eq!(snapshot.frames.len(), 1);
    assert_eq!(snapshot.frames[0].bytes, vec![0x01, b'x', b'y', b'z', b'w']);
}

#[test]
fn new_buffer_is_empty_and_open() {
    let core = ExecSessionCore::new(16);
    assert_eq!(core.head_seq(), 0);
    assert_eq!(core.first_seq(), 0);
    assert_eq!(core.buffered_bytes(), 0);
    assert!(!core.is_closed());
    assert!(core.finished_at().is_none());
}

#[test]
fn without_seq_framing_bytes_pass_unchanged() {
    let f = BufferedFrame { seq: 42, bytes: vec![0x02, b'e', b'r', b'r'] };
    assert_eq!(encode_frame(&f, false), vec![0x02, b'e', b'r', b'r']);
}

#[test]
fn seq_framing_of_empty_and_single_byte_frames() {
    let empty = BufferedFrame { seq: 1, bytes: vec![] };
    assert_eq!(encode_frame(&empty, true), vec![0, 0, 0, 0, 0, 0, 0, 0, 1]);
    let single = BufferedFrame { seq: 258, bytes: vec![0x01] };
    assert_eq!(encode_frame(&single, true), vec![0x01, 0, 0, 0, 0, 0, 0, 1, 2]);
}

#[test]
fn exit_time_is_the_one_given() {
    let mut core = ExecSessionCore::new(64);
    core.push_frame(frame(&[0x01, b'a']));
    core.mark_exit_at(2, "2024-01-01T00:00:00+00:00".to_string());
    assert_eq!(core.finished_at().as_deref(), Some("2024-01-01T00:00:00+00:00"));
    assert_eq!(core.exit_code(), Some(2));
    assert!(core.is_closed());
    assert_eq!(core.snapshot_after(0).frames.len(), 1);
}

#[test]
fn push_after_head_is_served_alone() {
    let mut core = ExecSessionCore::new(1024);
    core.push_frame(frame(&[0x01, b'a']));
    let head = core.head_seq();
    let f = core.push_frame(frame(&[0x01, b'b']));
    assert_eq!(f.seq, head + 1);
    let snap = core.snapshot_after(head);
    assert_eq!(snap.frames, vec![f]);
}
