use blink::agent::AgentResult;
use blink::hypervisor::{QemuDriver, QEMU_PROGRAM};
use blink::jobs::{JobStatus, JobStore, SandboxTier};
use blink::keyed::KeyedStore;
use blink::pty::{
    execution_exit, recorded_exit_code, PumpEnd, local_output_payload, output_frame, spawn_spec_from_argv, SpawnError,
    STDERR_CHANNEL, STDOUT_CHANNEL,
};
use blink::registry::ExecRegistry;
use blink::session::{
    export_file_name, find_session, memory_dir_command, session_working_dir, OpenSessionOptions,
    SandboxResources, SessionInfo, SessionVolume,
};
use blink::settings::{attach_buffer_bytes, attach_linger_secs, parse_u64};

fn result(stdout: &str) -> AgentResult {
    AgentResult { stdout: stdout.to_string(), stderr: String::new(), exit_code: 0, memory_keys: None }
}

#[test]
fn created_run_is_queued_and_found() {
    let mut store = JobStore::new();
    let job = store.create(SandboxTier::Session, "echo".to_string(), Some("dev".to_string()));
    assert_eq!(job.id.len(), 36);
    for (i, c) in job.id.chars().enumerate() {
        if [8, 13, 18, 23].contains(&i) {
            assert_eq!(c, '-');
        } else {
            assert!(c.is_ascii_digit() || ('a'..='f').contains(&c));
        }
    }
    assert_eq!(job.id.chars().nth(14), Some('4'));
    assert!(job.created_at.len() >= 25 && job.created_at.ends_with("+00:00"));
    assert!("89ab".contains(job.id.chars().nth(19).unwrap()));
    assert_eq!(job.status, JobStatus::Queued);
    assert_eq!(job.tier, SandboxTier::Session);
    assert_eq!(job.session_name.as_deref(), Some("dev"));
    assert!(job.started_at.is_none() && job.finished_at.is_none());
    let found = store.get(&job.id).unwrap();
    assert_eq!(found.id, job.id);
    assert_eq!(found.status, JobStatus::Queued);
    assert!(store.get("missing").is_none());
}

#[test]
fn two_runs_get_different_ids() {
    let mut store = JobStore::new();
    let a = store.create(SandboxTier::Ephemeral, String::new(), None);
    let b = store.create(SandboxTier::Ephemeral, String::new(), None);
    assert_ne!(a.id, b.id);
    assert!(store.get(&a.id).is_some());
    assert!(store.get(&b.id).is_some());
}

#[test]
fn run_lifecycle_records_times_and_result() {
    let mut store = JobStore::new();
    let job = store.create(SandboxTier::Ephemeral, "ls".to_string(), None);
    store.set_running_at(&job.id, "t1".to_string());
    let running = store.get(&job.id).unwrap();
    assert_eq!(running.status, JobStatus::Running);
    assert_eq!(running.started_at.as_deref(), Some("t1"));
    assert!(running.finished_at.is_none());

    store.set_succeeded_at(&job.id, result("done"), "t2".to_string());
    let done = store.get(&job.id).unwrap();
    assert_eq!(done.status, JobStatus::Succeeded);
    assert_eq!(done.started_at.as_deref(), Some("t1"));
    assert_eq!(done.finished_at.as_deref(), Some("t2"));
    assert_eq!(done.result, Some(result("done")));
    assert!(done.error.is_none());
}

#[test]
fn failed_run_keeps_the_error() {
    let mut store = JobStore::new();
    let job = store.create(SandboxTier::Ephemeral, "x".to_string(), None);
    store.set_running(&job.id);
    store.set_failed(&job.id, "boom".to_string());
    let failed = store.get(&job.id).unwrap();
    assert_eq!(failed.status, JobStatus::Failed);
    assert_eq!(failed.error.as_deref(), Some("boom"));
    assert!(failed.started_at.is_some());
    assert!(failed.finished_at.is_some());
    assert!(failed.result.is_none());
}

#[test]
fn updating_an_unknown_run_changes_nothing() {
    let mut store = JobStore::new();
    let job = store.create(SandboxTier::Ephemeral, "x".to_string(), None);
    store.set_succeeded(&"nope".to_string(), result("r"));
    assert!(store.get("nope").is_none());
    assert_eq!(store.get(&job.id).unwrap().status, JobStatus::Queued);
}

#[test]
fn registry_keeps_executions_until_removed() {
    let mut reg: ExecRegistry<u32> = ExecRegistry::new();
    assert_eq!(reg.insert("e1".to_string(), 7), "e1");
    reg.insert("e2".to_string(), 8);
    assert_eq!(reg.get("e1"), Some(&7));
    assert_eq!(reg.remove("e1"), Some(7));
    assert_eq!(reg.get("e1"), None);
    assert_eq!(reg.remove("e1"), None);
    assert_eq!(reg.get("e2"), Some(&8));
    reg.insert("e2".to_string(), 9);
    assert_eq!(reg.get("e2"), Some(&9));
}

#[test]
fn keyed_store_replaces_and_removes() {
    let mut s: KeyedStore<&str> = KeyedStore::new();
    s.insert("k".to_string(), "a");
    s.insert("k".to_string(), "b");
    assert_eq!(s.get(&"k".to_string()), Some(&"b"));
    assert_eq!(s.remove(&"k".to_string()), Some("b"));
    assert_eq!(s.get(&"k".to_string()), None);
}

#[test]
fn session_lookup_finds_the_first_match() {
    let sessions = vec![
        SessionInfo { name: None, box_id: "b0".to_string(), status: "running".to_string(), running: true },
        SessionInfo { name: Some("dev".to_string()), box_id: "b1".to_string(), status: "stopped".to_string(), running: false },
        SessionInfo { name: Some("dev".to_string()), box_id: "b2".to_string(), status: "running".to_string(), running: true },
    ];
    let found = find_session(&sessions, "dev").unwrap();
    assert_eq!(found.box_id, "b1");
    assert!(!found.running);
    assert!(find_session(&sessions, "prod").is_none());
}

#[test]
fn session_working_dir_is_the_first_volume() {
    assert_eq!(session_working_dir(&vec![]), None);
    let volumes = vec![
        SessionVolume { host_path: "/h1".to_string(), guest_path: "/work".to_string(), read_only: false },
        SessionVolume { host_path: "/h2".to_string(), guest_path: "/data".to_string(), read_only: true },
    ];
    assert_eq!(session_working_dir(&volumes).as_deref(), Some("/work"));
}

#[test]
fn session_strings() {
    assert_eq!(export_file_name("dev", "20240101T000000Z"), "dev-20240101T000000Z.boxlite");
    assert_eq!(memory_dir_command(), "mkdir -p /var/blink/memory");
}

#[test]
fn default_options_set_nothing() {
    let o = OpenSessionOptions::default();
    assert!(o.volumes.is_empty());
    assert!(o.network.is_none());
    assert_eq!(o.resources, SandboxResources::default());
    assert_eq!(SandboxResources::default().validate(), Ok(()));
}

#[test]
fn spawn_spec_from_command_line() {
    let spec = spawn_spec_from_argv(
        vec!["bash".to_string(), "-l".to_string(), "-c".to_string()],
        true,
        Some(24),
        Some(80),
    )
    .unwrap();
    assert_eq!(spec.command, "bash");
    assert_eq!(spec.args, vec!["-l", "-c"]);
    assert!(spec.env.is_empty());
    assert!(spec.working_dir.is_none());
    assert_eq!(spec.initial_resize(), Some((24, 80)));

    let spec = spawn_spec_from_argv(vec!["ls".to_string()], false, Some(24), Some(80)).unwrap();
    assert_eq!(spec.initial_resize(), None);
    assert!(matches!(spawn_spec_from_argv(vec![], true, None, None), Err(SpawnError::CommandRequired)));
}

#[test]
fn output_frames_carry_their_channel() {
    assert_eq!(output_frame(STDOUT_CHANNEL, b"ok"), vec![STDOUT_CHANNEL, b'o', b'k']);
    assert_eq!(output_frame(STDERR_CHANNEL, b""), vec![STDERR_CHANNEL]);
}

#[test]
fn local_terminal_strips_the_channel_byte() {
    assert_eq!(local_output_payload(&[STDOUT_CHANNEL, b'a'], false), b"a".to_vec());
    assert_eq!(local_output_payload(&[STDERR_CHANNEL, b'e'], false), b"e".to_vec());
    assert_eq!(local_output_payload(&[STDERR_CHANNEL, b'e'], true), vec![STDERR_CHANNEL, b'e']);
    assert_eq!(local_output_payload(&[9, b'x'], false), vec![9, b'x']);
    assert_eq!(local_output_payload(&[], false), Vec::<u8>::new());
}

#[test]
fn execution_exit_prefers_the_error() {
    assert_eq!(execution_exit(3, None), Ok(3));
    assert_eq!(execution_exit(0, Some("lost".to_string())), Err("lost".to_string()));
}

#[test]
fn numbers_parse_like_std() {
    assert_eq!(parse_u64("0"), Some(0));
    assert_eq!(parse_u64("+42"), Some(42));
    assert_eq!(parse_u64("18446744073709551615"), Some(u64::MAX));
    assert_eq!(parse_u64("18446744073709551616"), None);
    assert_eq!(parse_u64(""), None);
    assert_eq!(parse_u64("+"), None);
    assert_eq!(parse_u64("-1"), None);
    assert_eq!(parse_u64("1 2"), None);
    for s in ["7", "+7", "007", "x", "99999999999999999999"] {
        assert_eq!(parse_u64(s), s.parse::<u64>().ok());
    }
}

#[test]
fn attach_settings_fall_back_to_defaults() {
    assert_eq!(attach_buffer_bytes(None), 1_048_576);
    assert_eq!(attach_buffer_bytes(Some(" 4096 ")), 4096);
    assert_eq!(attach_buffer_bytes(Some("0")), 1_048_576);
    assert_eq!(attach_buffer_bytes(Some("lots")), 1_048_576);
    assert_eq!(attach_linger_secs(None), 300);
    assert_eq!(attach_linger_secs(Some("5")), 5);
    assert_eq!(attach_linger_secs(Some("0")), 300);
    assert_eq!(attach_linger_secs(Some("-3")), 300);
}

#[test]
fn qemu_command_line() {
    let d = QemuDriver { vmlinux: "/k/vmlinux".to_string(), initrd: "/k/initrd".to_string() };
    assert_eq!(QEMU_PROGRAM, "qemu-system-x86_64");
    assert_eq!(
        d.qemu_args(),
        vec!["-enable-kvm", "-m", "512", "-kernel", "/k/vmlinux", "-initrd", "/k/initrd"]
    );
}

#[test]
fn pump_failures_record_minus_one() {
    assert_eq!(recorded_exit_code(&PumpEnd::Finished(3)), 3);
    assert_eq!(recorded_exit_code(&PumpEnd::Failed("x".to_string())), -1);
    assert_eq!(recorded_exit_code(&PumpEnd::Dropped), -1);
}
