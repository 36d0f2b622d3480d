use blink::agent::{
    agent_launch_command, agent_result_from_fields, agent_result_from_json, finish_agent_run, parse_execution_payload,
    AgentResult, AgentRunError,
};
use blink::attach::{
    control_action_from_fields, is_stdin_eof, parse_boolish, parse_control_message, AttachCursor, AttachQuery, ControlAction,
    ControlError,
};
use blink::frames::BufferedFrame;

#[test]
fn boolish_query_values() {
    for v in ["1", "true", "YES", " on "] {
        assert!(parse_boolish(Some(v)));
    }
    for v in ["0", "no", "", "maybe"] {
        assert!(!parse_boolish(Some(v)));
    }
    assert!(!parse_boolish(None));
}

#[test]
fn asking_for_a_cursor_turns_on_seq_framing() {
    let q = AttachQuery { after: Some(3), seq: None, seq_framing: false }.finalize();
    assert!(q.seq_framing);
    assert_eq!(q.after, Some(3));
    let q = AttachQuery { after: None, seq: Some("true".to_string()), seq_framing: false }.finalize();
    assert!(q.seq_framing);
    let q = AttachQuery { after: None, seq: Some("off".to_string()), seq_framing: true }.finalize();
    assert!(!q.seq_framing);
}

#[test]
fn stdin_eof_control_is_recognised() {
    assert!(is_stdin_eof("{\"type\":\"stdin_eof\"}"));
    assert!(!is_stdin_eof("{\"type\": \"stdin_eof\"}"));
    assert!(!is_stdin_eof("{\"type\":\"resize\"}"));
}

#[test]
fn cursor_skips_frames_already_sent() {
    let mut c = AttachCursor::new(2, false);
    let frames = vec![
        BufferedFrame { seq: 1, bytes: vec![1, b'a'] },
        BufferedFrame { seq: 2, bytes: vec![1, b'b'] },
        BufferedFrame { seq: 3, bytes: vec![1, b'c'] },
        BufferedFrame { seq: 3, bytes: vec![1, b'c'] },
        BufferedFrame { seq: 4, bytes: vec![2, b'd'] },
    ];
    let sent: Vec<Vec<u8>> = frames.iter().filter_map(|f| c.deliver(f)).collect();
    assert_eq!(sent, vec![vec![1, b'c'], vec![2, b'd']]);
    assert_eq!(c.last_sent_seq, 4);
    assert_eq!(c.deliver(&BufferedFrame { seq: 4, bytes: vec![1] }), None);
}

#[test]
fn cursor_with_seq_framing_encodes_frames() {
    let mut c = AttachCursor::new(0, true);
    let out = c.deliver(&BufferedFrame { seq: 1, bytes: vec![1, b'x'] }).unwrap();
    assert_eq!(out, vec![1, 0, 0, 0, 0, 0, 0, 0, 1, b'x']);
    assert_eq!(c.last_sent_seq, 1);
}

#[test]
fn control_messages_parse() {
    assert_eq!(
        parse_control_message("{\"type\":\"resize\",\"rows\":40,\"cols\":120}"),
        Ok(ControlAction::Resize { rows: 40, cols: 120 })
    );
    assert_eq!(
        parse_control_message("{\"type\":\"signal\",\"signal\":15}"),
        Ok(ControlAction::Signal(15))
    );
    assert_eq!(parse_control_message("{\"type\":\"stdin_eof\"}"), Ok(ControlAction::StdinEof));
    assert_eq!(parse_control_message("{\"type\":\"ping\"}"), Ok(ControlAction::Ignore));
    assert_eq!(parse_control_message("{}"), Ok(ControlAction::Ignore));
}

#[test]
fn control_message_errors() {
    assert_eq!(parse_control_message("not json"), Err(ControlError::InvalidJson));
    assert_eq!(
        parse_control_message("{\"type\":\"resize\",\"cols\":1}"),
        Err(ControlError::MissingRows)
    );
    assert_eq!(
        parse_control_message("{\"type\":\"resize\",\"rows\":1}"),
        Err(ControlError::MissingCols)
    );
    assert_eq!(
        parse_control_message("{\"type\":\"signal\"}"),
        Err(ControlError::MissingSignal)
    );
}

#[test]
fn agent_result_reads_the_json_fields() {
    let r = agent_result_from_json(
        "{\"event\":\"execution_result\",\"stdout\":\"hi\",\"stderr\":\"\",\"exit_code\":3,\"memory_keys\":[\"a\",1,\"b\"]}",
    )
    .unwrap();
    assert_eq!(
        r,
        AgentResult {
            stdout: "hi".to_string(),
            stderr: String::new(),
            exit_code: 3,
            memory_keys: Some(vec!["a".to_string(), "b".to_string()]),
        }
    );
}

#[test]
fn agent_result_defaults_missing_fields() {
    let r = agent_result_from_json("{\"event\":\"execution_result\"}").unwrap();
    assert_eq!(r.stdout, "");
    assert_eq!(r.stderr, "");
    assert_eq!(r.exit_code, 1);
    assert_eq!(r.memory_keys, None);
    assert!(agent_result_from_json("{\"event\":\"other\"}").is_none());
    assert!(agent_result_from_json("nope").is_none());
}

#[test]
fn payload_is_found_in_the_last_result_line() {
    let stdout = "booting\n{\"event\":\"execution_result\",\"stdout\":\"first\",\"exit_code\":0}\nnoise\n{\"event\":\"execution_result\",\"stdout\":\"last\",\"exit_code\":0}\ntrailing\n";
    let r = parse_execution_payload(stdout).unwrap();
    assert_eq!(r.stdout, "last");
    assert_eq!(r.exit_code, 0);
}

#[test]
fn payload_of_a_whole_document() {
    let r = parse_execution_payload("  {\"event\":\"execution_result\",\"stdout\":\"x\",\"exit_code\":5}  ").unwrap();
    assert_eq!(r.stdout, "x");
    assert_eq!(r.exit_code, 5);
    assert!(parse_execution_payload("   ").is_none());
    assert!(parse_execution_payload("plain output\nmore").is_none());
}

#[test]
fn agent_run_falls_back_to_raw_output() {
    let r = finish_agent_run("plain".to_string(), "warn".to_string(), 2, None).unwrap();
    assert_eq!(
        r,
        AgentResult { stdout: "plain".to_string(), stderr: "warn".to_string(), exit_code: 2, memory_keys: None }
    );
    let r = finish_agent_run(
        "{\"event\":\"execution_result\",\"stdout\":\"parsed\",\"exit_code\":0}".to_string(),
        "raw".to_string(),
        9,
        None,
    )
    .unwrap();
    assert_eq!(r.stdout, "parsed");
    assert_eq!(r.exit_code, 0);
}

#[test]
fn agent_run_error_is_reported() {
    assert_eq!(
        finish_agent_run(String::new(), String::new(), 0, Some("killed".to_string())),
        Err(AgentRunError::ProcessFailed("killed".to_string()))
    );
}

#[test]
fn agent_launch_command_runs_the_binary() {
    assert_eq!(agent_launch_command(), "chmod +x /tmp/blink_agent && exec /tmp/blink_agent");
}

#[test]
fn control_errors_have_messages() {
    assert_eq!(ControlError::InvalidJson.message(), "invalid control JSON");
    assert_eq!(ControlError::MissingRows.message(), "resize.rows required");
    assert_eq!(ControlError::MissingCols.message(), "resize.cols required");
    assert_eq!(ControlError::MissingSignal.message(), "signal required");
}

#[test]
fn control_action_from_json_fields() {
    assert_eq!(
        control_action_from_fields(true, Some("resize".to_string()), Some(5), Some(6), None),
        Ok(ControlAction::Resize { rows: 5, cols: 6 })
    );
    assert_eq!(
        control_action_from_fields(true, Some("signal".to_string()), None, None, Some(9)),
        Ok(ControlAction::Signal(9))
    );
    assert_eq!(
        control_action_from_fields(false, Some("signal".to_string()), None, None, Some(9)),
        Err(ControlError::InvalidJson)
    );
    assert_eq!(control_action_from_fields(true, None, Some(1), Some(1), None), Ok(ControlAction::Ignore));
}

#[test]
fn agent_result_from_json_fields() {
    let r = agent_result_from_fields(
        Some("execution_result".to_string()),
        Some("out".to_string()),
        None,
        None,
        Some(vec![Some("k".to_string()), None]),
    )
    .unwrap();
    assert_eq!(
        r,
        AgentResult { stdout: "out".to_string(), stderr: String::new(), exit_code: 1, memory_keys: Some(vec!["k".to_string()]) }
    );
    assert!(agent_result_from_fields(Some("other".to_string()), None, None, Some(0), None).is_none());
    assert!(agent_result_from_fields(None, None, None, Some(0), None).is_none());
}
