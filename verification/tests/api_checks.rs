use blink::api::{
    attach_url, check_attach_session, check_export_filename, check_session_name,
    check_session_script, check_spawn_request, check_submit_script, check_submit_tier,
    classify_open_error, download_url, export_path_decision, import_name_from_file_name, internal, resolve_web_root,
    safe_export_path, valid_session_name, ApiError, ApiErrorKind, ImportForm, TierName,
};
use blink::jobs::SandboxTier;
use blink::paths::PathPart;
use blink::session::{ResourceError, SandboxResources};

fn bad(message: &str) -> ApiError {
    ApiError { kind: ApiErrorKind::BadRequest, message: message.to_string() }
}

#[test]
fn session_names_are_short_ascii_words() {
    assert!(valid_session_name("dev-box_1"));
    assert!(valid_session_name(&"a".repeat(64)));
    assert!(!valid_session_name(""));
    assert!(!valid_session_name(&"a".repeat(65)));
    assert!(!valid_session_name("has space"));
    assert!(!valid_session_name("dot.name"));
    assert!(!valid_session_name("ünï"));
    assert_eq!(check_session_name("x/y"), Err(bad("invalid session name")));
    assert_eq!(check_session_name("ok"), Ok(()));
}

#[test]
fn submitted_script_is_trimmed_and_required() {
    assert_eq!(check_submit_script("  echo hi \n").unwrap(), "echo hi");
    assert_eq!(check_submit_script(" \t "), Err(bad("script must not be empty")));
    assert_eq!(check_session_script(" ls "), Ok("ls".to_string()));
    assert_eq!(check_session_script(""), Err(bad("script required")));
}

#[test]
fn session_tier_needs_a_valid_name() {
    assert_eq!(check_submit_tier(TierName::Ephemeral, None), Ok(SandboxTier::Ephemeral));
    assert_eq!(check_submit_tier(TierName::Ephemeral, Some("bad name")), Ok(SandboxTier::Ephemeral));
    assert_eq!(check_submit_tier(TierName::Session, Some(" dev ")), Ok(SandboxTier::Session));
    assert_eq!(check_submit_tier(TierName::Session, None), Err(bad("session_name required")));
    assert_eq!(check_submit_tier(TierName::Session, Some("   ")), Err(bad("session_name required")));
    assert_eq!(check_submit_tier(TierName::Session, Some("a b")), Err(bad("invalid session_name")));
    assert_eq!(TierName::default(), TierName::Ephemeral);
}

#[test]
fn open_errors_about_settings_are_bad_requests() {
    for msg in [
        "invalid network config: x",
        "allow_net is incompatible with disabled",
        "cpus must be >= 1",
        "memory_mib must be >= 1",
        "disk_size_gb must be >= 1",
    ] {
        assert_eq!(classify_open_error(msg.to_string()).kind, ApiErrorKind::BadRequest);
    }
    let e = classify_open_error("box runtime crashed".to_string());
    assert_eq!(e.kind, ApiErrorKind::Internal);
    assert_eq!(e.message, "box runtime crashed");
    assert_eq!(internal("boom".to_string()).kind, ApiErrorKind::Internal);
}

#[test]
fn resource_errors_map_to_bad_requests() {
    for (res, want) in [
        (SandboxResources { cpus: Some(0), memory_mib: None, disk_size_gb: None }, ResourceError::ZeroCpus),
        (SandboxResources { cpus: Some(2), memory_mib: Some(0), disk_size_gb: Some(0) }, ResourceError::ZeroMemory),
        (SandboxResources { cpus: None, memory_mib: Some(512), disk_size_gb: Some(0) }, ResourceError::ZeroDisk),
    ] {
        let err: ResourceError = res.validate().unwrap_err();
        assert_eq!(err, want);
        assert_eq!(classify_open_error(err.message()).kind, ApiErrorKind::BadRequest);
    }
}

#[test]
fn spawn_request_needs_command_and_name() {
    assert_eq!(check_spawn_request("  ", "dev"), Err(bad("command required")));
    assert_eq!(check_spawn_request("bash", "d e v"), Err(bad("invalid session name")));
    assert_eq!(check_spawn_request("bash -l", "dev"), Ok(()));
}

#[test]
fn attach_and_download_urls() {
    assert_eq!(attach_url("dev", "ex-1"), "/api/sessions/dev/executions/ex-1/attach");
    assert_eq!(download_url("dev-1.boxlite"), "/api/exports/dev-1.boxlite");
}

#[test]
fn attach_checks_the_session_of_the_execution() {
    assert_eq!(check_attach_session("dev", "dev"), Ok(()));
    assert_eq!(
        check_attach_session("dev", "other"),
        Err(ApiError {
            kind: ApiErrorKind::NotFound,
            message: "execution not found in session".to_string()
        })
    );
}

#[test]
fn export_filenames_cannot_leave_the_directory() {
    assert_eq!(check_export_filename("dev-1.boxlite"), Ok(()));
    assert_eq!(check_export_filename("a/b"), Err(bad("invalid filename")));
    assert_eq!(check_export_filename("..boxlite"), Err(bad("invalid filename")));
}

#[test]
fn export_path_is_joined_and_stays_inside() {
    assert_eq!(
        safe_export_path("/var/exports", "dev-1.boxlite").unwrap(),
        "/var/exports/dev-1.boxlite"
    );
    assert_eq!(safe_export_path("/var/exports", "../etc/passwd"), Err(bad("invalid path")));
    assert_eq!(safe_export_path("/var/exports", "/etc/passwd"), Err(bad("invalid path")));
}

#[test]
fn import_name_comes_from_the_file_name() {
    assert_eq!(import_name_from_file_name(Some("dev.boxlite")), "dev");
    assert_eq!(import_name_from_file_name(Some("notes.tar")), "notes.tar");
    assert_eq!(import_name_from_file_name(None), "import");
    let long = format!("{}.boxlite", "x".repeat(40));
    assert_eq!(import_name_from_file_name(Some(&long)), "x".repeat(32));
}

#[test]
fn import_form_requires_an_archive() {
    let form = ImportForm::new();
    assert_eq!(form.finish(), Err(bad("archive file required")));
}

#[test]
fn import_form_name_field_wins_over_file_name() {
    let mut form = ImportForm::new();
    form.accept_name("  chosen ");
    form.accept_archive(Some("other.boxlite"));
    assert_eq!(form.finish(), Ok(Some("chosen".to_string())));

    let mut form = ImportForm::new();
    form.accept_archive(Some("dev.boxlite"));
    assert_eq!(form.finish(), Ok(Some("dev".to_string())));

    let mut form = ImportForm::new();
    form.accept_archive(Some("bad name.boxlite"));
    assert_eq!(form.finish(), Err(bad("invalid session name")));
}

#[test]
fn web_root_defaults_next_to_the_sources() {
    assert_eq!(resolve_web_root(Some("/srv/web".to_string()), "/x"), "/srv/web");
    assert_eq!(resolve_web_root(None, "/repo/src/server"), "/repo/src/server/../../web");
}

#[test]
fn export_path_decision_from_parts() {
    let ok = export_path_decision("/e/a".to_string(), &vec![PathPart::RootDir, PathPart::Normal, PathPart::Normal], true);
    assert_eq!(ok, Ok("/e/a".to_string()));
    let up = export_path_decision("/e/../a".to_string(), &vec![PathPart::RootDir, PathPart::Normal, PathPart::ParentDir, PathPart::Normal], true);
    assert_eq!(up, Err(bad("invalid path")));
    let out = export_path_decision("/a".to_string(), &vec![PathPart::RootDir, PathPart::Normal], false);
    assert_eq!(out, Err(bad("invalid path")));
}
