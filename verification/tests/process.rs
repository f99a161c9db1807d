use rem_exec::error::{IoError, IoKind};
use rem_exec::process::{
    ensure_base_dir, exec_reason, generate_id, is_valid_process_id, remote_base, unix_timestamp,
    BaseDirMeta, BaseDirPlan, ProcessDir, ProcessState,
};

#[test]
fn process_state_parses_known_and_unknown_values() {
    assert!(matches!(
        ProcessState::parse("running"),
        ProcessState::Running
    ));
    assert!(matches!(
        ProcessState::parse("exited(0)"),
        ProcessState::Exited(0)
    ));
    assert!(matches!(
        ProcessState::parse("exited(137)"),
        ProcessState::Exited(137)
    ));
    assert!(matches!(
        ProcessState::parse("exited(killed)"),
        ProcessState::ExitedKilled
    ));
    assert!(matches!(
        ProcessState::parse("exited(unknown)"),
        ProcessState::ExitedUnknown
    ));
    assert!(matches!(
        ProcessState::parse("exited(not-a-code)"),
        ProcessState::Exited(-1)
    ));
    assert!(matches!(
        ProcessState::parse("nonsense"),
        ProcessState::ExitedUnknown
    ));
}

#[test]
fn process_id_validation_rejects_path_components() {
    assert!(is_valid_process_id("0123abcd"));
    assert!(is_valid_process_id("ABCDEF09"));

    for id in [
        "",
        "abc",
        "../abcd",
        "/tmp/x",
        "abc/def0",
        "0123abcd9",
        "gggggggg",
    ] {
        assert!(!is_valid_process_id(id), "{id} should be rejected");
    }
}

fn dir_meta(is_symlink: bool, is_dir: bool, uid: u32, mode: u32) -> Result<BaseDirMeta, IoError> {
    Ok(BaseDirMeta {
        is_symlink,
        is_dir,
        uid,
        mode,
    })
}

#[test]
fn the_base_directory_must_be_a_private_directory_of_ours() {
    let missing = Err(IoError {
        kind: IoKind::NotFound,
        message: "gone".to_string(),
    });
    assert!(matches!(
        ensure_base_dir("/b", false, missing, 7),
        Ok(BaseDirPlan::Create)
    ));
    assert!(matches!(
        ensure_base_dir("/b", true, dir_meta(false, true, 7, 0o40700), 7),
        Ok(BaseDirPlan::Ready)
    ));
    assert!(matches!(
        ensure_base_dir("/b", true, dir_meta(false, true, 7, 0o40755), 7),
        Ok(BaseDirPlan::Restrict)
    ));
    let link = ensure_base_dir("/b", true, dir_meta(true, false, 7, 0o120777), 7).unwrap_err();
    assert!(link.message().contains("is a symlink"), "{}", link.message());
    let file = ensure_base_dir("/b", true, dir_meta(false, false, 7, 0o100600), 7).unwrap_err();
    assert!(
        file.message().contains("is not a directory"),
        "{}",
        file.message()
    );
    assert!(ensure_base_dir("/b", true, dir_meta(false, true, 8, 0o40700), 7).is_err());
}

#[test]
fn a_recorded_state_is_read_back() {
    for state in [
        ProcessState::Running,
        ProcessState::Exited(0),
        ProcessState::Exited(-1),
        ProcessState::Exited(255),
        ProcessState::Signaled(15),
        ProcessState::ExitedKilled,
        ProcessState::ExitedUnknown,
    ] {
        assert_eq!(ProcessState::parse(&state.render()), state);
    }
    assert_eq!(ProcessState::Exited(42).render(), "exited(42)");
    assert_eq!(ProcessState::Signaled(9).render(), "signaled(9)");
    assert_eq!(
        ProcessState::ExecFailed(2).render(),
        "exec_failed(command_not_found)"
    );
    assert_eq!(exec_reason(2), "command_not_found");
}

#[test]
fn state_lives_below_the_runtime_directory_or_in_tmp() {
    assert_eq!(remote_base(Some("/run/user/7"), 7), "/run/user/7/rem-exec");
    assert_eq!(remote_base(None, 1000), "/tmp/rem-exec-1000");
}

#[test]
fn a_process_directory_names_its_files() {
    let dir = ProcessDir::new("/base", "0123abcd");
    assert_eq!(dir.status_path(), "/base/0123abcd/status");
    assert_eq!(dir.stdin_pipe_path(), "/base/0123abcd/stdin_pipe");
    assert_eq!(
        dir.stream_path("stderr").as_deref(),
        Some("/base/0123abcd/stderr")
    );
    assert_eq!(dir.stream_path("../x"), None);
    assert_eq!(dir.id(), "0123abcd");
}

#[test]
fn state_files_are_read_trimmed_and_leniently() {
    let dir = ProcessDir::new("/base", "0123abcd");
    assert_eq!(dir.read_cmd(Some("sleep 10\n")), "sleep 10");
    assert_eq!(dir.read_cmd(None), "");
    assert_eq!(dir.read_started(Some(" 17\n")), 17);
    assert_eq!(dir.read_started(Some("soon")), 0);
    assert_eq!(dir.read_ended(Some("18")), Some(18));
    assert_eq!(dir.read_ended(None), None);
    assert_eq!(dir.read_pid(Some("4294967295\n")), Some(4294967295));
    assert_eq!(dir.read_pid(Some("4294967296\n")), None);
    assert_eq!(dir.read_runner_pid(Some("12\n")), Some(12));
    assert_eq!(dir.read_stdin_holder_pid(Some("x")), None);
    assert_eq!(dir.read_exec_error(Some("2\n")), Some(2));
    assert_eq!(dir.stream_size("stdout", Some(5), Some(6)), 5);
    assert_eq!(dir.stream_size("other", Some(5), Some(6)), 0);
    assert!(dir.read_status(None).is_err());
}

#[test]
fn an_id_is_eight_hex_digits_of_randomness() {
    let id = generate_id(&[0x01, 0x23, 0xab, 0xcd]);
    assert_eq!(id, "0123abcd");
    assert!(is_valid_process_id(&id));
    assert_eq!(unix_timestamp(Some(17)), 17);
    assert_eq!(unix_timestamp(None), 0);
}
