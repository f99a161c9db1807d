use rem_exec::cli::errors::{
    cache_fetch_error, daemon_error_json, daemon_unreachable, explain_old_rxd, local_io_error_json,
    local_put_source_error_json, parse_mode, read_inline_stdin, report_failure,
    transport_error_json, StdinError, INLINE_STDIN_CAP,
};
use rem_exec::cli::exit::{
    error_exit, error_exit_from_value, exit_for, exit_for_value, run_exit, run_exit_from_value,
};
use rem_exec::cli::parse::{clap_parts, parse_failure, strip_ansi, ParseKind};
use rem_exec::cli::pipe::{
    copy_local_stdin_to_remote, pipe_local_stdin_to_remote, CopyEvent, CopyState, CopyStep,
    PipeCopy, PipeEnd, PipeStdinReport,
};
use rem_exec::cli::report::{cache_report, do_deploy, do_ping};
use rem_exec::cli::route::{
    after_start, after_start_value, preflight_piped_write, route_via_daemon, route_via_ssh,
    write_bytes, Followup, Plan, StartPipe,
};
use rem_exec::cli::transfer::{
    create_get_temp, do_get, do_put, get_temp_path, header_line, is_get_temp_name_collision,
    needs_deploy_for_stdin, put_file, put_stdin, random_get_temp_suffix, reads_stdin,
    receive_to_temp, retry_with_deploy, staging_dir, stdin_deploy_failed, AttemptEvent,
    AttemptPhase, Attempts, Download, GetEvent, GetPhase, ReceiveError, StagingStep, StdinEvent,
    StdinPhase, StdinPut,
};
use rem_exec::cli::{
    command_hosts, command_process_id, compact_for_stderr, compact_requested, daemon_enabled,
    daemon_opt_in, json_env, object_goes_to_stdout, refuse_arguments, write_line, write_out,
    CacheAction, Command, DaemonAction,
};
use rem_exec::daemon::server::{dispatch, Dispatch};
use rem_exec::deploy::{
    DeployPolicy, DeployResult, DeployStatus, SetupBinary, SetupResult, SetupStatus,
};
use rem_exec::error::{IoError, IoKind, RemExecError};
use rem_exec::json::Json;
use rem_exec::process::is_valid_process_id;
use rem_exec::protocol::{Encoding, ErrorCode, Request, Response};
use rem_exec::ssh::validate_host;

fn io(kind: IoKind, message: &str) -> IoError {
    IoError {
        kind,
        message: message.to_string(),
    }
}

fn code(r: &Response) -> Option<ErrorCode> {
    match r {
        Response::Error { code, .. } => *code,
        _ => None,
    }
}

fn text(r: &Response) -> &str {
    match r {
        Response::Error { message, .. } => message,
        _ => "",
    }
}

fn hint(r: &Response) -> Option<&str> {
    match r {
        Response::Error { hint, .. } => hint.as_deref(),
        _ => None,
    }
}

fn flag(v: &Json, key: &str) -> Option<bool> {
    match v.get(key) {
        Some(Json::Bool(b)) => Some(*b),
        _ => None,
    }
}

/// A consumer that hung up, the way `| head` does.
struct ClosedPipe;

impl std::io::Write for ClosedPipe {
    fn write(&mut self, _: &[u8]) -> std::io::Result<usize> {
        Err(std::io::Error::from(std::io::ErrorKind::BrokenPipe))
    }
    fn flush(&mut self) -> std::io::Result<()> {
        Err(std::io::Error::from(std::io::ErrorKind::BrokenPipe))
    }
}

fn write_to(stream: &mut impl std::io::Write, text: &str) -> Result<(), IoError> {
    match stream.write_all(text.as_bytes()) {
        Ok(()) => Ok(()),
        Err(e) => Err(io(
            match e.kind() {
                std::io::ErrorKind::BrokenPipe => IoKind::BrokenPipe,
                _ => IoKind::Other,
            },
            &e.to_string(),
        )),
    }
}

/// A closed consumer ends the write, not the process.
#[test]
fn a_closed_consumer_does_not_panic_the_writer() {
    let line = write_line("{\"type\":\"ping\"}");
    assert_eq!(line, "{\"type\":\"ping\"}\n");
    assert_eq!(write_out(&write_to(&mut ClosedPipe, &line)), None);
    assert_eq!(write_out(&write_to(&mut ClosedPipe, "the guide, unread")), None);
    assert_eq!(write_out(&Ok(())), None);
    assert_eq!(
        write_out(&Err(io(IoKind::Other, "disk full"))).as_deref(),
        Some("rx: cannot write output: disk full")
    );
}

fn completed(exit_code: Option<i32>, signal: Option<i32>, exec_error: Option<&str>) -> Response {
    Response::Completed {
        id: "abcdef01".into(),
        exit_code,
        signal,
        exec_error: exec_error.map(str::to_string),
        duration_ms: 1,
        stdout: String::new(),
        stdout_encoding: Encoding::Utf8,
        stderr: String::new(),
        stderr_encoding: Encoding::Utf8,
        stdout_size: 0,
        stderr_size: 0,
        stdout_truncated: false,
        stderr_truncated: false,
    }
}

/// A command that never started must not look like success to a shell.
/// `rx run HOST -- missing-tool && next-step` used to run `next-step`.
#[test]
fn exec_failure_exits_127_not_zero() {
    let response = completed(None, None, Some("command_not_found"));
    assert_eq!(run_exit(&response), 127);
}

#[test]
fn every_id_taking_command_is_validated_locally() {
    let with_id = |id: &str| Command::Status {
        host: "h".into(),
        id: id.into(),
    };
    assert_eq!(command_process_id(&with_id("deadbeef")), Some("deadbeef"));
    assert!(is_valid_process_id("deadbeef"));
    for bad in [
        "NOTANID",
        "deadbee",
        "deadbeef0",
        "",
        "dead beef",
        "ZZZZZZZZ",
    ] {
        assert_eq!(command_process_id(&with_id(bad)), Some(bad));
        assert!(!is_valid_process_id(bad), "{bad:?} must be rejected");
        let refused = refuse_arguments(&with_id(bad)).expect("refused");
        assert_eq!(code(&refused), Some(ErrorCode::InvalidProcessId));
    }
    assert!(refuse_arguments(&with_id("deadbeef")).is_none());
    // Commands that take no ID must not be caught by the guard.
    assert_eq!(command_process_id(&Command::Skill), None);
    assert_eq!(
        command_process_id(&Command::List { host: "h".into() }),
        None
    );
}

/// A local write failure during `get` is not a transport problem.
#[test]
fn a_local_get_failure_is_typed_and_names_the_local_path() {
    let missing = local_io_error_json("/no/such/dir/f", &io(IoKind::NotFound, "entity not found"));
    let value = missing.to_value();
    assert_eq!(value.get_text("code"), Some("not_found"));
    assert_eq!(flag(&value, "retryable"), Some(false));
    assert!(value.get_text("message").unwrap().contains("/no/such/dir/f"));
    assert!(value.get_text("hint").is_some());

    let denied = local_io_error_json("/etc/f", &io(IoKind::PermissionDenied, "permission denied"));
    let value = denied.to_value();
    assert_eq!(value.get_text("code"), Some("bad_request"));
    assert_eq!(flag(&value, "retryable"), Some(false));
}

/// A local source failure during `put` is the same class: never a transport
/// code, never a host probe.
#[test]
fn a_local_put_source_failure_is_typed_and_names_the_local_path() {
    let missing =
        local_put_source_error_json("/no/such/file", &io(IoKind::NotFound, "entity not found"));
    let value = missing.to_value();
    assert_eq!(value.get_text("code"), Some("not_found"));
    assert_eq!(flag(&value, "retryable"), Some(false));
    assert!(value.get_text("message").unwrap().contains("/no/such/file"));
    assert!(value.get_text("hint").is_some());
}

/// The contract advertises `code` unconditionally.
#[test]
fn an_unclassifiable_transport_failure_still_carries_a_code() {
    let response = daemon_error_json("something the classifier has never seen");
    let value = response.to_value();
    assert_eq!(value.get_text("type"), Some("error"));
    assert_eq!(value.get_text("code"), Some("internal"));
    assert!(value.get("retryable").is_some());
}

/// A failed auto-deploy message must stay `not_deployed` on the daemon path
/// too: the codes an agent branches on must not depend on RX_DAEMON.
#[test]
fn a_daemon_auto_deploy_failure_is_not_deployed() {
    let response = daemon_error_json(
        "auto-deploy to host1 failed: run `rx cache fetch` first (original: …)",
    );
    assert_eq!(response.to_value().get_text("code"), Some("not_deployed"));
}

/// A real exit 127 and a failed exec share an exit status but stay
/// distinguishable in the JSON, which is the source of truth.
#[test]
fn a_genuine_exit_127_is_still_propagated() {
    let response = completed(Some(127), None, None);
    assert_eq!(run_exit(&response), 127);
}

#[test]
fn ordinary_statuses_are_unaffected_by_the_exec_failure_path() {
    for (code, signal, want) in [
        (Some(0), None, 0u8),
        (Some(1), None, 1),
        (None, Some(9), 137),
    ] {
        assert_eq!(
            run_exit(&completed(code, signal, None)),
            want,
            "exit_code={code:?} signal={signal:?}"
        );
    }
}

/// The daemon path reads the same shape out of a JSON value and must agree
/// with `run_exit`, or the exit status would depend on RX_DAEMON.
#[test]
fn the_value_path_agrees_about_exec_failure() {
    let data = Json::Object(vec![
        ("type".to_string(), Json::Text("completed".to_string())),
        ("exit_code".to_string(), Json::Null),
        ("signal".to_string(), Json::Null),
        (
            "exec_error".to_string(),
            Json::Text("command_not_found".to_string()),
        ),
    ]);
    assert_eq!(run_exit_from_value(&data), 127);
}

#[test]
fn daemon_opt_in_requires_an_explicit_truthy_value() {
    assert!(daemon_opt_in(Some("1")));
    assert!(daemon_opt_in(Some("true")));
    assert!(daemon_opt_in(Some("YES")));
    assert!(daemon_opt_in(Some(" on ")));
    assert!(!daemon_opt_in(Some("0")));
    assert!(!daemon_opt_in(Some("")));
    assert!(!daemon_opt_in(None));
}

// An explicit flag decides on its own; only an unforced call may consult
// the environment or the terminal, which is what keeps a pipeline's output
// shape independent of where it happens to run.
#[test]
fn explicit_json_flags_win_over_everything_else() {
    for env in [None, Some("compact"), Some("pretty")] {
        for terminal in [false, true] {
            assert!(compact_requested(true, false, env, terminal));
            assert!(!compact_requested(false, true, env, terminal));
        }
    }
}

#[test]
fn command_hosts_covers_plain_and_host_path_destinations() {
    let run = Command::Run {
        host: "site-router1".to_string(),
        command: vec!["true".to_string()],
        cwd: None,
        env: Vec::new(),
        timeout: Some(30),
        keep_stdin_open: false,
        keep: false,
    };
    assert_eq!(command_hosts(&run), vec!["site-router1"]);

    let put = Command::Put {
        local: "-".to_string(),
        remote: "-oProxyCommand=x:/run/secrets/db".to_string(),
        mode: None,
        owner: None,
        group: None,
        allow_empty: false,
    };
    assert_eq!(command_hosts(&put), vec!["-oProxyCommand=x"]);
    assert!(validate_host(&command_hosts(&put)[0]).is_err());
    assert_eq!(
        code(&refuse_arguments(&put).expect("refused")),
        Some(ErrorCode::BadHost)
    );

    // Unsplittable HOST:PATH yields nothing — the command's own
    // "must be HOST:PATH" message is the better error there.
    let malformed = Command::Get {
        remote: "no-colon".to_string(),
        local: "/tmp/x".to_string(),
        mode: None,
    };
    assert!(command_hosts(&malformed).is_empty());

    let deploy = Command::Deploy {
        hosts: vec!["a".to_string(), "b".to_string()],
        binary: None,
        offline: false,
        allow_downgrade: false,
    };
    assert_eq!(command_hosts(&deploy), vec!["a", "b"]);
}

// ---------------------------------------------------------------------------
// Output and environment
// ---------------------------------------------------------------------------

#[test]
fn json_shape_follows_the_environment_then_the_destination() {
    assert_eq!(json_env(Some(" Compact "), Some("pretty")).as_deref(), Some("compact"));
    assert_eq!(json_env(None, Some("PRETTY")).as_deref(), Some("pretty"));
    assert_eq!(json_env(None, None), None);
    assert!(compact_requested(false, false, Some("compact"), true));
    assert!(!compact_requested(false, false, Some("pretty"), false));
    assert!(compact_requested(false, false, Some("other"), false));
    assert!(!compact_requested(false, false, None, true));
    let args = vec!["rx".to_string(), "--pretty".to_string(), "--compact".to_string()];
    assert!(!compact_for_stderr(&args, None, false));
    assert!(compact_for_stderr(&Vec::new(), None, false));
    assert!(!compact_for_stderr(&Vec::new(), Some("pretty"), false));
    assert!(daemon_enabled(Some("1"), None));
    assert!(daemon_enabled(None, Some("on")));
    assert!(!daemon_enabled(Some("0"), Some("1")));
}

#[test]
fn only_a_piped_start_keeps_its_object_off_stdout() {
    let start = |pipe| Command::Start {
        host: "h".to_string(),
        command: vec!["cat".to_string()],
        cwd: None,
        env: Vec::new(),
        no_close_stdin: false,
        pipe,
    };
    assert!(!object_goes_to_stdout(&start(true)));
    assert!(object_goes_to_stdout(&start(false)));
    assert!(object_goes_to_stdout(&Command::Skill));
    assert!(object_goes_to_stdout(&Command::Daemon {
        action: DaemonAction::Status
    }));
    assert!(object_goes_to_stdout(&Command::Cache {
        action: CacheAction::Fetch {
            version: None,
            arch: Vec::new(),
            force: false
        }
    }));
}

// ---------------------------------------------------------------------------
// Exit codes
// ---------------------------------------------------------------------------

#[test]
fn a_failure_exits_by_its_code() {
    assert_eq!(error_exit(None), 1);
    for unusable in [
        ErrorCode::BadRequest,
        ErrorCode::InvalidProcessId,
        ErrorCode::BadHost,
    ] {
        let r = Response::error_code(unusable, "m");
        assert_eq!(exit_for(&r), 2);
        assert_eq!(error_exit_from_value(&r.to_value()), 2);
        assert_eq!(exit_for_value(&r.to_value(), true), 2);
    }
    for failed in [
        ErrorCode::NotFound,
        ErrorCode::EmptyStream,
        ErrorCode::SshUnreachable,
        ErrorCode::Internal,
    ] {
        let r = Response::error_code(failed, "m");
        assert_eq!(exit_for(&r), 1);
        assert_eq!(error_exit_from_value(&r.to_value()), 1);
    }
    assert_eq!(exit_for(&Response::Written { bytes: 0 }), 0);
}

#[test]
fn the_route_does_not_change_the_exit_status() {
    for r in [
        completed(Some(0), None, None),
        completed(Some(-3), None, None),
        completed(Some(1000), None, None),
        completed(None, Some(15), None),
        completed(None, Some(i32::MAX), None),
        completed(None, None, None),
        completed(Some(0), None, Some("permission_denied")),
        Response::error_code(ErrorCode::BadRequest, "m"),
        Response::error_code(ErrorCode::Timeout, "m"),
        Response::Started {
            id: "0123abcd".to_string(),
        },
    ] {
        assert_eq!(exit_for_value(&r.to_value(), true), run_exit(&r), "{r:?}");
        assert_eq!(exit_for_value(&r.to_value(), false), exit_for(&r), "{r:?}");
    }
    assert_eq!(run_exit(&completed(Some(-3), None, None)), 0);
    assert_eq!(run_exit(&completed(Some(1000), None, None)), 255);
    assert_eq!(run_exit(&completed(None, Some(i32::MAX), None)), 255);
}

// ---------------------------------------------------------------------------
// Errors
// ---------------------------------------------------------------------------

#[test]
fn a_transport_failure_is_classified_before_the_host_is_probed() {
    let refused = RemExecError::Ssh("Connection refused".to_string());
    let r = transport_error_json("h", &refused, &DeployStatus::Missing);
    assert_eq!(code(&r), Some(ErrorCode::SshUnreachable));
    assert!(hint(&r).is_some());
    let odd = RemExecError::Ssh("rxd: not found".to_string());
    let r = transport_error_json("h", &odd, &DeployStatus::Missing);
    assert_eq!(code(&r), Some(ErrorCode::NotDeployed));
    let r = transport_error_json("h", &odd, &DeployStatus::Unknown);
    assert_eq!(code(&r), Some(ErrorCode::Internal));
    assert_eq!(text(&r), "SSH error: rxd: not found");
    assert_eq!(
        text(&daemon_unreachable(&RemExecError::DaemonNotRunning)),
        "local daemon: daemon not running"
    );
    assert_eq!(
        text(&report_failure(&RemExecError::Other("m".to_string()))),
        "m"
    );
}

#[test]
fn inline_stdin_has_a_cap() {
    assert!(matches!(
        read_inline_stdin(true, Ok(vec![1])),
        Ok(None)
    ));
    assert!(matches!(
        read_inline_stdin(false, Ok(vec![0; INLINE_STDIN_CAP])),
        Ok(Some(_))
    ));
    let large = read_inline_stdin(false, Ok(vec![0; INLINE_STDIN_CAP + 1])).unwrap_err();
    assert!(matches!(large, StdinError::TooLarge));
    let r = large.into_response();
    assert_eq!(code(&r), Some(ErrorCode::BadRequest));
    assert_eq!(text(&r), "stdin exceeds the 4194304-byte inline cap");
    let broken = read_inline_stdin(false, Err(io(IoKind::Other, "EIO"))).unwrap_err();
    assert_eq!(text(&broken.into_response()), "reading stdin: EIO");
}

#[test]
fn modes_are_octal() {
    assert_eq!(parse_mode("0644"), Ok(0o644));
    assert_eq!(parse_mode("0o600"), Ok(0o600));
    assert_eq!(
        parse_mode("9999").unwrap_err(),
        "invalid --mode '9999' (expected octal like 0644)"
    );
}

#[test]
fn an_old_rxd_is_a_deploy_problem() {
    let rejected = Response::error_code(ErrorCode::BadRequest, "unknown variant `put_stream`");
    let r = explain_old_rxd("h", rejected);
    assert_eq!(code(&r), Some(ErrorCode::NotDeployed));
    assert!(hint(&r).unwrap().contains("rx deploy h"));
    let other = Response::error_code(ErrorCode::BadRequest, "no such thing");
    assert_eq!(text(&explain_old_rxd("h", other)), "no such thing");
}

#[test]
fn a_fetch_that_cannot_work_is_never_retryable() {
    let r = cache_fetch_error(&RemExecError::AssetNotFound("no v9.9.9".to_string()));
    assert_eq!(code(&r), Some(ErrorCode::DeployFailed));
    let r = cache_fetch_error(&RemExecError::Other(
        "unsupported architecture z80; supported: x86_64".to_string(),
    ));
    assert_eq!(code(&r), Some(ErrorCode::BadRequest));
    let r = cache_fetch_error(&RemExecError::Other("curl is missing".to_string()));
    assert_eq!(code(&r), Some(ErrorCode::Internal));
}

// ---------------------------------------------------------------------------
// The parser's rejections
// ---------------------------------------------------------------------------

#[test]
fn the_parser_object_keeps_claps_own_wording() {
    let rendered = "\u{1b}[1m\u{1b}[31merror:\u{1b}[0m unrecognized subcommand '\u{1b}[33msetup\u{1b}[0m'\n\n  tip: a similar subcommand exists: 'status'\n\nUsage: rx [OPTIONS] <COMMAND>\n\nFor more information, try '--help'.\n";
    let (answer, exit) = parse_failure(ParseKind::Rejected, rendered);
    assert_eq!(exit, 2);
    let value = answer.expect("an object").to_value();
    assert_eq!(value.get_text("type"), Some("error"));
    assert_eq!(value.get_text("code"), Some("bad_request"));
    assert_eq!(flag(&value, "retryable"), Some(false));
    let message = value.get_text("message").expect("message is a string");
    assert!(message.contains("unrecognized subcommand"), "{message}");
    assert_eq!(message, "unrecognized subcommand 'setup'");
    // One line: a compact object is what a caller reads.
    assert!(!message.contains('\n'), "message must be one line: {message}");
    // No ANSI escapes leaked into the JSON string.
    assert!(!message.contains('\u{1b}'), "message must be unstyled: {message}");
    assert_eq!(
        value.get_text("hint"),
        Some("a similar subcommand exists: 'status'; `rx --help` for the full usage")
    );
}

#[test]
fn discovery_prints_for_a_reader_and_emits_no_object() {
    let (answer, exit) = parse_failure(ParseKind::Display, "Usage: rx");
    assert!(answer.is_none());
    assert_eq!(exit, 0);
}

#[test]
fn a_bare_invocation_prints_help_without_an_object() {
    let (answer, exit) = parse_failure(ParseKind::DisplayOnMissing, "Usage: rx");
    assert!(answer.is_none());
    assert_eq!(exit, 2);
}

#[test]
fn a_rendering_without_an_error_line_is_still_diagnosed() {
    assert_eq!(
        clap_parts("Usage: rx\n"),
        ("Usage: rx".to_string(), None)
    );
    assert_eq!(
        clap_parts("something  odd\nerror: later\n"),
        ("something odd".to_string(), None)
    );
    assert_eq!(strip_ansi("a\u{1b}[0;1mb\u{1b}"), "ab");
    assert_eq!(strip_ansi("\u{1b}xy"), "y");
    assert_eq!(strip_ansi("plain"), "plain");
}

// ---------------------------------------------------------------------------
// Routing
// ---------------------------------------------------------------------------

fn run_command(env: &[&str]) -> Command {
    Command::Run {
        host: "h".to_string(),
        command: vec!["sh".to_string(), "-c".to_string(), "a; b $(c)".to_string()],
        cwd: Some("/tmp".to_string()),
        env: env.iter().map(|e| e.to_string()).collect(),
        timeout: Some(5),
        keep_stdin_open: false,
        keep: true,
    }
}

#[test]
fn arguments_are_checked_before_stdin_is_looked_at() {
    match route_via_ssh(run_command(&["A=1", "NOEQUALS"]), false) {
        Plan::Reply(r) => {
            assert_eq!(code(&r), Some(ErrorCode::BadRequest));
            assert_eq!(text(&r), "invalid --env 'NOEQUALS' (expected K=V)");
            assert_eq!(exit_for(&r), 2);
        }
        other => panic!("expected a rejection, got {other:?}"),
    }
}

#[test]
fn both_routes_ask_for_the_same() {
    let (host, request) = match route_via_ssh(run_command(&["A=1", "A=2"]), false) {
        Plan::Run { host, request } => (host, request),
        other => panic!("expected a run, got {other:?}"),
    };
    match &request {
        Request::Run {
            command,
            env,
            timeout_ms,
            ephemeral,
            ..
        } => {
            assert_eq!(command[2], "a; b $(c)");
            assert_eq!(env.len(), 1);
            assert_eq!(env.pair(0), ("A", "2"));
            assert_eq!(*timeout_ms, Some(5000));
            assert!(!*ephemeral);
        }
        other => panic!("expected a run, got {other:?}"),
    }
    let body = [0u8, 0xff, b'\n'];
    let relay = route_via_daemon(host, request, &body).expect("relayed");
    match dispatch(relay) {
        Dispatch::Forward {
            host,
            request: Request::Run { command, cwd, .. },
            body: arrived,
        } => {
            assert_eq!(host, "h");
            assert_eq!(command[2], "a; b $(c)");
            assert_eq!(cwd.as_deref(), Some("/tmp"));
            assert_eq!(arrived, body);
        }
        other => panic!("expected a forwarded run, got {other:?}"),
    }
    assert!(route_via_daemon("h".to_string(), Request::Ping, &[]).is_none());
}

#[test]
fn a_write_takes_text_or_a_pipe() {
    let write = |input: Option<&str>, raw| Command::Write {
        host: "h".to_string(),
        id: "0123abcd".to_string(),
        input: input.map(str::to_string),
        raw,
    };
    match route_via_ssh(write(Some("hi"), false), true) {
        Plan::Send { body, .. } => assert_eq!(body, b"hi\n"),
        other => panic!("expected a write, got {other:?}"),
    }
    assert!(matches!(
        route_via_ssh(write(None, false), false),
        Plan::PipedWrite { .. }
    ));
    match route_via_ssh(write(None, false), true) {
        Plan::Reply(r) => assert_eq!(text(&r), "no input provided and stdin is not piped"),
        other => panic!("expected a rejection, got {other:?}"),
    }
    assert_eq!(write_bytes("é", true), "é".as_bytes());
}

#[test]
fn a_start_is_followed_by_its_pipe() {
    let start = |pipe| Command::Start {
        host: "h".to_string(),
        command: vec!["cat".to_string()],
        cwd: None,
        env: Vec::new(),
        no_close_stdin: true,
        pipe,
    };
    let pipe_of = |command, terminal| match route_via_ssh(command, terminal) {
        Plan::Start { pipe, .. } => pipe,
        other => panic!("expected a start, got {other:?}"),
    };
    assert_eq!(pipe_of(start(true), true), StartPipe::Both);
    assert_eq!(pipe_of(start(false), false), StartPipe::Feed { no_close: true });
    assert_eq!(pipe_of(start(false), true), StartPipe::Off);

    let started = Response::Started {
        id: "0123abcd".to_string(),
    };
    assert!(matches!(
        after_start(&started, StartPipe::Off),
        Followup::Exit(0)
    ));
    assert!(matches!(
        after_start(&started, StartPipe::Both),
        Followup::Both { .. }
    ));
    let failed = Response::error_code(ErrorCode::BadRequest, "m");
    assert!(matches!(
        after_start(&failed, StartPipe::Both),
        Followup::Exit(2)
    ));
    // Through the daemon the same answers lead to the same exits.
    assert!(matches!(
        after_start_value(&failed.to_value(), StartPipe::Both),
        Followup::Exit(2)
    ));
    match after_start_value(&started.to_value(), StartPipe::Feed { no_close: true }) {
        Followup::Feed { id, no_close } => {
            assert_eq!(id, "0123abcd");
            assert!(no_close);
        }
        other => panic!("expected a feed, got {other:?}"),
    }
    assert!(matches!(
        after_start_value(&Json::Null, StartPipe::Both),
        Followup::Exit(1)
    ));
}

#[test]
fn an_unpiped_start_exits_by_the_answer_alone() {
    let started = Response::Started {
        id: "0123abcd".to_string(),
    };
    assert!(matches!(
        after_start_value(&started.to_value(), StartPipe::Off),
        Followup::Exit(0)
    ));
    // No error, and no process: that is no failure either.
    assert!(matches!(
        after_start_value(&Json::Null, StartPipe::Off),
        Followup::Exit(0)
    ));
    // An error is one, even with an ID beside it.
    let failed = Json::object(vec![
        ("type".to_string(), Json::text("error")),
        ("code".to_string(), Json::text("bad_request")),
        ("id".to_string(), Json::text("0123abcd")),
    ]);
    assert!(matches!(
        after_start_value(&failed, StartPipe::Off),
        Followup::Exit(2)
    ));
}

#[test]
fn a_piped_write_needs_a_running_process() {
    let status = |state: &str| Response::Status {
        id: "0123abcd".to_string(),
        state: state.to_string(),
        cmd: String::new(),
        started: 0,
        ended: None,
        exit_code: None,
        signal: None,
        stdout_size: 0,
        stderr_size: 0,
    };
    assert!(preflight_piped_write("h", "0123abcd", status("running"), "").is_none());
    let over = preflight_piped_write("h", "0123abcd", status("exited(0)"), "").unwrap();
    assert_eq!(code(&over), Some(ErrorCode::ProcessExited));
    assert_eq!(
        text(&over),
        "process 0123abcd on h is exited(0); cannot write stdin"
    );
    let odd = preflight_piped_write("h", "0123abcd", Response::Written { bytes: 1 }, "Written");
    assert_eq!(
        text(&odd.unwrap()),
        "unexpected status response before piped write: Written"
    );
}

#[test]
fn stdin_is_copied_in_order() {
    let mut st = CopyState {
        copied: 0,
        at: 0,
        to: 0,
    };
    assert!(matches!(
        copy_local_stdin_to_remote(&mut st, CopyEvent::Read(Ok(5))),
        CopyStep::Write
    ));
    assert!(matches!(
        copy_local_stdin_to_remote(&mut st, CopyEvent::Wrote(Ok(2))),
        CopyStep::Write
    ));
    assert!(matches!(
        copy_local_stdin_to_remote(
            &mut st,
            CopyEvent::Wrote(Err(io(IoKind::Interrupted, "EINTR")))
        ),
        CopyStep::Write
    ));
    assert_eq!((st.copied, st.at, st.to), (2, 2, 5));
    assert!(matches!(
        copy_local_stdin_to_remote(&mut st, CopyEvent::Wrote(Ok(3))),
        CopyStep::Read
    ));
    assert!(matches!(
        copy_local_stdin_to_remote(&mut st, CopyEvent::Read(Ok(0))),
        CopyStep::Done(PipeCopy {
            bytes: 5,
            broken_pipe: false
        })
    ));
    copy_local_stdin_to_remote(&mut st, CopyEvent::Read(Ok(4)));
    assert!(matches!(
        copy_local_stdin_to_remote(
            &mut st,
            CopyEvent::Wrote(Err(io(IoKind::BrokenPipe, "EPIPE")))
        ),
        CopyStep::Done(PipeCopy {
            bytes: 5,
            broken_pipe: true
        })
    ));
}

#[test]
fn only_transport_failures_fail_an_unreported_pipe() {
    let exited = |code: i32, broken_pipe| PipeEnd::Exited {
        code: Some(code),
        success: code == 0,
        status: format!("exit status: {code}"),
        copy: PipeCopy {
            bytes: 7,
            broken_pipe,
        },
    };
    let report = |r, end: &PipeEnd| pipe_local_stdin_to_remote("h", "0123abcd", r, end);
    assert!(matches!(
        report(PipeStdinReport::Written, &exited(0, false)),
        (Some(Response::Written { bytes: 7 }), 0)
    ));
    let (answer, exit) = report(PipeStdinReport::Written, &exited(1, true));
    assert_eq!(
        text(&answer.unwrap()),
        "process 0123abcd on h did not accept piped stdin (rxd pipe-stdin exited with exit status: 1)"
    );
    assert_eq!(exit, 1);
    let (answer, _) = report(PipeStdinReport::Written, &exited(255, false));
    assert_eq!(code(&answer.unwrap()), Some(ErrorCode::SshUnreachable));
    let failed = PipeEnd::NotFed("EIO".to_string());
    let (answer, _) = report(PipeStdinReport::Written, &failed);
    assert_eq!(text(&answer.unwrap()), "feeding stdin to h: EIO");
    assert_eq!(report(PipeStdinReport::Quiet, &exited(1, true)).1, 0);
    assert_eq!(report(PipeStdinReport::Quiet, &exited(255, false)).1, 1);
    assert_eq!(report(PipeStdinReport::Quiet, &failed).1, 1);
}

// ---------------------------------------------------------------------------
// Transfers
// ---------------------------------------------------------------------------

#[test]
fn malformed_transfers_are_typed_rejections() {
    let put = do_put("somehost", None).unwrap_err();
    assert_eq!(code(&put), Some(ErrorCode::BadRequest));
    assert_eq!(text(&put), "destination \"somehost\" is not HOST:PATH");
    assert!(hint(&put).unwrap().contains("rx put"));
    let get = do_get("somehost", None).unwrap_err();
    assert_eq!(text(&get), "source \"somehost\" is not HOST:PATH");
    let mode = do_put("h:/tmp/x", Some("9999")).unwrap_err();
    assert_eq!(code(&mode), Some(ErrorCode::BadRequest));
    let good = do_put("h:/tmp/x:y", Some("0644")).unwrap();
    assert_eq!((good.host.as_str(), good.path.as_str()), ("h", "/tmp/x:y"));
    assert_eq!(good.mode, Some(0o644));
    assert!(reads_stdin("-"));
    assert!(!reads_stdin("./-"));
    assert!(matches!(
        put_file("/tmp/x".to_string(), 9, None, None, None),
        Request::Put { size: Some(9), .. }
    ));
}

fn stdin_put(policy: DeployPolicy, is_terminal: bool) -> StdinPut {
    let to = do_put("h:/tmp/x", Some("0600")).unwrap();
    put_stdin(to, None, Some("adm".to_string()), true, policy, is_terminal)
}

fn done() -> Result<Response, RemExecError> {
    Ok(Response::Copied {
        path: "/tmp/x".to_string(),
        bytes: 3,
        mode: None,
    })
}

#[test]
fn a_terminal_is_refused_before_anything_is_opened() {
    let p = stdin_put(DeployPolicy::On, true);
    assert!(matches!(p.phase, StdinPhase::Finished));
    match &p.outcome {
        Some(Ok(refused)) => assert_eq!(code(refused), Some(ErrorCode::BadRequest)),
        other => panic!("expected a refusal, got {other:?}"),
    }
}

#[test]
fn stdin_is_streamed_once_the_deploy_question_is_settled() {
    // Nothing is asked where nothing may be deployed.
    let p = stdin_put(DeployPolicy::Off, false);
    assert!(matches!(p.phase, StdinPhase::Stream));
    match &p.request {
        Request::PutStream {
            path,
            mode,
            owner,
            group,
            allow_empty,
        } => {
            assert_eq!(path, "/tmp/x");
            assert_eq!(*mode, Some(0o600));
            assert!(owner.is_none());
            assert_eq!(group.as_deref(), Some("adm"));
            assert!(*allow_empty);
        }
        other => panic!("expected a streamed put, got {other:?}"),
    }
    let mut p = stdin_put(DeployPolicy::Local, false);
    assert!(matches!(p.phase, StdinPhase::Probe));
    p.step(StdinEvent::Probed(DeployStatus::Missing));
    match &p.phase {
        StdinPhase::Deploy(opts) => assert!(!opts.allow_fetch && !opts.allow_downgrade),
        other => panic!("expected a deploy, got {other:?}"),
    }
    p.step(StdinEvent::Deployed(Ok(())));
    assert!(matches!(p.phase, StdinPhase::Stream));
    p.step(StdinEvent::Answered(done()));
    assert!(matches!(p.phase, StdinPhase::Finished));
    assert!(matches!(p.outcome, Some(Ok(Response::Copied { bytes: 3, .. }))));
    // A host that is ahead is streamed to as it is.
    let mut p = stdin_put(DeployPolicy::On, false);
    p.step(StdinEvent::Probed(DeployStatus::Current {
        version: "99.0.0".to_string(),
    }));
    assert!(matches!(p.phase, StdinPhase::Stream));
    // What stdin was read for is not tried again, though a deploy would help.
    p.step(StdinEvent::Answered(Err(RemExecError::Ssh(
        "rxd: not found".to_string(),
    ))));
    assert!(matches!(p.phase, StdinPhase::Finished));
    assert!(matches!(p.outcome, Some(Err(RemExecError::Ssh(_)))));
}

#[test]
fn stdin_is_not_read_after_a_deploy_that_failed() {
    let mut p = stdin_put(DeployPolicy::On, false);
    p.step(StdinEvent::Probed(DeployStatus::Missing));
    p.step(StdinEvent::Deployed(Err(RemExecError::Other("no cache".to_string()))));
    assert!(matches!(p.phase, StdinPhase::Finished));
    match &p.outcome {
        Some(Err(e)) => assert_eq!(e.message(), "SSH error: auto-deploy to h failed: no cache"),
        other => panic!("expected a failure, got {other:?}"),
    }
}

#[test]
fn an_rxd_too_old_for_streams_is_not_deployed() {
    let mut p = stdin_put(DeployPolicy::Off, false);
    p.step(StdinEvent::Answered(Ok(Response::error_code(
        ErrorCode::BadRequest,
        "unknown variant `put_stream`",
    ))));
    match &p.outcome {
        Some(Ok(r)) => assert_eq!(code(r), Some(ErrorCode::NotDeployed)),
        other => panic!("expected an answer, got {other:?}"),
    }
}

#[test]
fn a_transfer_is_tried_once_more_after_a_deploy() {
    let missing = || RemExecError::Ssh("rxd: not found".to_string());
    let mut a = Attempts::begin("h", DeployPolicy::On);
    a.step(AttemptEvent::Tried(Err(missing())));
    assert!(matches!(&a.phase, AttemptPhase::Deploy(opts) if opts.allow_fetch));
    a.step(AttemptEvent::Deployed(Ok(())));
    assert!(matches!(a.phase, AttemptPhase::Second));
    a.step(AttemptEvent::Tried(Err(missing())));
    assert!(matches!(a.phase, AttemptPhase::Finished));
    assert!(matches!(a.outcome, Some(Err(RemExecError::Ssh(_)))));
    // Where nothing may be deployed the first failure is final.
    let mut a = Attempts::begin("h", DeployPolicy::Off);
    a.step(AttemptEvent::Tried(Err(missing())));
    assert!(matches!(a.phase, AttemptPhase::Finished));
    // A success is not tried again.
    let mut a = Attempts::begin("h", DeployPolicy::On);
    a.step(AttemptEvent::Tried(done()));
    assert!(matches!(a.outcome, Some(Ok(Response::Copied { .. }))));
    // A deploy that failed reports both failures.
    let mut a = Attempts::begin("h", DeployPolicy::On);
    a.step(AttemptEvent::Tried(Err(missing())));
    a.step(AttemptEvent::Deployed(Err(RemExecError::Other("no cache".to_string()))));
    match &a.outcome {
        Some(Err(e)) => assert_eq!(
            e.message(),
            "SSH error: auto-deploy to h failed: no cache (original: SSH error: rxd: not found)"
        ),
        other => panic!("expected a failure, got {other:?}"),
    }
}

#[test]
fn a_transfer_is_deployed_for_only_where_that_helps() {
    let missing = RemExecError::Ssh("rxd: not found".to_string());
    assert!(retry_with_deploy(&missing, DeployPolicy::Off).is_none());
    assert!(!retry_with_deploy(&missing, DeployPolicy::Local).unwrap().allow_fetch);
    assert!(retry_with_deploy(&missing, DeployPolicy::On).unwrap().allow_fetch);
    let denied = RemExecError::Ssh("Permission denied".to_string());
    assert!(retry_with_deploy(&denied, DeployPolicy::On).is_none());
    let current = |v: &str| DeployStatus::Current {
        version: v.to_string(),
    };
    assert!(needs_deploy_for_stdin(&current("0.2.1")));
    assert!(!needs_deploy_for_stdin(&current("99.0.0")));
    assert!(!needs_deploy_for_stdin(&DeployStatus::Unknown));
    assert!(needs_deploy_for_stdin(&DeployStatus::Missing));
    assert_eq!(
        stdin_deploy_failed("h", &RemExecError::Other("no cache".to_string())).message(),
        "SSH error: auto-deploy to h failed: no cache"
    );
}

#[test]
fn a_download_is_staged_under_a_name_nobody_can_predict() {
    let suffix = random_get_temp_suffix(&[0xde, 0xad, 0xbe, 0xef], &[0xde, 0xad, 0xbe, 0xef]);
    assert_eq!(suffix, "deadbeefdeadbeef");
    assert_eq!(
        get_temp_path(&staging_dir("/tmp/out.bin"), &suffix),
        "/tmp/.rxd-get-deadbeefdeadbeef.tmp"
    );
    assert_eq!(staging_dir("out.bin"), ".");
    let taken = io(IoKind::AlreadyExists, "EEXIST");
    assert!(is_get_temp_name_collision(&taken, false));
    assert!(is_get_temp_name_collision(&io(IoKind::Other, "ELOOP"), true));
    assert!(matches!(create_get_temp(1, Ok(())), StagingStep::Created));
    assert!(matches!(
        create_get_temp(127, Err((io(IoKind::AlreadyExists, "EEXIST"), false))),
        StagingStep::Again
    ));
    match create_get_temp(128, Err((io(IoKind::AlreadyExists, "EEXIST"), false))) {
        StagingStep::Fail(e) => {
            assert_eq!(e.message, "could not create a unique local staging file")
        }
        other => panic!("expected a failure, got {other:?}"),
    }
    assert!(matches!(
        create_get_temp(1, Err((io(IoKind::PermissionDenied, "EACCES"), false))),
        StagingStep::Fail(_)
    ));
    assert!(matches!(
        receive_to_temp(Ok(16), 116),
        Err(ReceiveError::Incomplete {
            expected: 116,
            got: 16
        })
    ));
    assert_eq!(receive_to_temp(Ok(0), 0).unwrap(), 0);
    assert_eq!(header_line(b"{}\n"), b"{}");
    assert_eq!(header_line(b"{}"), b"{}");
}

fn download() -> Download {
    let mut d = Download::begin("/var/log/app.log", "./app.log", None);
    d.step(GetEvent::Header(Response::GetStream {
        size: 9,
        mode: "0640".to_string(),
    }));
    assert_eq!(d.phase, GetPhase::Receive { size: 9 });
    d
}

fn answer(d: Download) -> Response {
    match d.outcome {
        Some(Ok(r)) => r,
        other => panic!("expected an answer, got {other:?}"),
    }
}

#[test]
fn a_download_is_checked_before_it_is_installed() {
    let mut d = download();
    d.step(GetEvent::Received(Ok(9)));
    assert_eq!(d.phase, GetPhase::Drain);
    d.step(GetEvent::Ended {
        extra: 0,
        success: true,
    });
    assert_eq!(d.phase, GetPhase::Commit { mode: 0o640 });
    d.step(GetEvent::Committed(Ok(())));
    assert_eq!(d.phase, GetPhase::Finished);
    match answer(d) {
        Response::Got { path, bytes, mode } => {
            assert_eq!(path, "./app.log");
            assert_eq!(bytes, 9);
            assert_eq!(mode.as_deref(), Some("0640"));
        }
        other => panic!("expected a download, got {other:?}"),
    }
}

#[test]
fn a_download_that_went_wrong_leaves_the_destination_alone() {
    let mut d = download();
    d.step(GetEvent::Received(Ok(5)));
    assert_eq!(d.phase, GetPhase::Discard);
    d.step(GetEvent::Removed);
    assert_eq!(d.phase, GetPhase::Finished);
    let r = answer(d);
    assert_eq!(code(&r), Some(ErrorCode::IncompleteTransfer));
    assert_eq!(
        text(&r),
        "incomplete transfer from /var/log/app.log: expected 9 bytes, received 5"
    );

    for (extra, success) in [(1, true), (0, false)] {
        let mut d = download();
        d.step(GetEvent::Received(Ok(9)));
        d.step(GetEvent::Ended { extra, success });
        assert_eq!(d.phase, GetPhase::Discard);
        assert_eq!(code(&answer(d)), Some(ErrorCode::FileChanged));
    }

    let mut d = download();
    d.step(GetEvent::Received(Err(io(IoKind::NotFound, "ENOENT"))));
    assert_eq!(d.phase, GetPhase::Discard);
    assert_eq!(text(&answer(d)), "cannot write ./app.log: ENOENT");
}

#[test]
fn a_download_without_a_usable_header_fails() {
    let begin = || Download::begin("/f", "./f", Some(0o600));
    let message = |d: Download| match d.outcome {
        Some(Err(e)) => e.message(),
        other => panic!("expected an error, got {other:?}"),
    };
    let mut d = begin();
    d.step(GetEvent::Silent(" rxd: not found\n".to_string()));
    assert_eq!(
        message(d),
        "SSH error: no response from remote: rxd: not found"
    );
    let mut d = begin();
    d.step(GetEvent::Undecodable("eof".to_string()));
    assert_eq!(message(d), "protocol error: invalid header from remote: eof");
    let mut d = begin();
    d.step(GetEvent::Header(Response::Written { bytes: 1 }));
    assert_eq!(
        message(d),
        "protocol error: unexpected header type from remote"
    );
    let mut d = begin();
    d.step(GetEvent::Header(Response::error_code(ErrorCode::NotFound, "gone")));
    assert_eq!(text(&answer(d)), "gone");
    let mut d = begin();
    d.step(GetEvent::Header(Response::GetStream {
        size: 1,
        mode: "0644".to_string(),
    }));
    d.step(GetEvent::Received(Ok(1)));
    d.step(GetEvent::Ended {
        extra: 0,
        success: true,
    });
    // The mode that was asked for wins over the source's.
    assert_eq!(d.phase, GetPhase::Commit { mode: 0o600 });
}

// ---------------------------------------------------------------------------
// Reports
// ---------------------------------------------------------------------------

fn deployed(host: &str, changed: bool) -> Result<DeployResult, RemExecError> {
    Ok(DeployResult {
        host: host.to_string(),
        arch: "x86_64".to_string(),
        version: "0.4.0".to_string(),
        changed,
    })
}

fn names(hosts: &[&str]) -> Vec<String> {
    hosts.iter().map(|h| h.to_string()).collect()
}

#[test]
fn one_deployment_is_flat_and_several_are_a_list() {
    let (v, exit) = do_deploy(&names(&["a"]), &vec![deployed("a", false)]);
    assert_eq!(exit, 0);
    assert_eq!(v.get_text("type"), Some("deployed"));
    assert_eq!(v.get_text("status"), Some("current"));
    assert_eq!(flag(&v, "changed"), Some(false));

    let unreachable = || Err(RemExecError::Ssh("Connection refused".to_string()));
    let (v, exit) = do_deploy(&names(&["b"]), &vec![unreachable()]);
    assert_eq!(exit, 1);
    assert_eq!(v.get_text("type"), Some("error"));
    assert_eq!(v.get_text("code"), Some("ssh_unreachable"));

    let (v, exit) = do_deploy(&names(&["a", "b"]), &vec![deployed("a", true), unreachable()]);
    assert_eq!(exit, 1);
    match v.get("hosts") {
        Some(Json::List(items)) => {
            assert_eq!(items[0].get_text("status"), Some("deployed"));
            assert_eq!(items[1].get_text("status"), Some("failed"));
            assert_eq!(items[1].get_text("host"), Some("b"));
            assert_eq!(items[1].get_text("code"), Some("ssh_unreachable"));
            assert_eq!(flag(&items[1], "retryable"), Some(true));
        }
        other => panic!("expected a list, got {other:?}"),
    }
}

#[test]
fn a_ping_says_which_end_is_behind() {
    let ping = |version: &str| Response::Ping {
        version: version.to_string(),
        protocol: 2,
        arch: "x86_64".to_string(),
        os: "Linux".to_string(),
        kernel: "6.12.4".to_string(),
        hostname: "h".to_string(),
        distro_id: None,
        distro_version: None,
    };
    let v = do_ping("h", &ping("0.4.0"));
    assert_eq!(v.get_text("local_version"), Some("0.4.0"));
    assert_eq!(flag(&v, "up_to_date"), Some(true));
    assert!(v.get("hint").is_none());
    let v = do_ping("h", &ping("0.3.0"));
    assert_eq!(v.get_text("hint"), Some("run `rx deploy h` to match rx 0.4.0"));
    let v = do_ping("h", &ping("0.5.0"));
    assert!(v.get_text("hint").unwrap().contains("upgrade rx"));
    let v = do_ping("h", &Response::error_code(ErrorCode::Internal, "m"));
    assert!(v.get("up_to_date").is_none());
}

#[test]
fn a_fetch_reports_every_binary() {
    let v = cache_report(&SetupResult {
        version: "v0.4.0".to_string(),
        binaries: vec![SetupBinary {
            arch: "x86_64".to_string(),
            path: "/cache/rxd-v0.4.0-x86_64".to_string(),
            sha256: "abc".to_string(),
            status: SetupStatus::Installed,
        }],
    });
    assert_eq!(v.get_text("action"), Some("fetch"));
    match v.get("binaries") {
        Some(Json::List(items)) => {
            assert_eq!(items[0].get_text("status"), Some("installed"));
            assert_eq!(items[0].get_text("sha256"), Some("abc"));
        }
        other => panic!("expected a list, got {other:?}"),
    }
}

// ---------------------------------------------------------------------------
// The output contract
// ---------------------------------------------------------------------------

fn is_bad_request(r: &Response) -> Json {
    let value = r.to_value();
    assert_eq!(value.get_text("type"), Some("error"));
    assert_eq!(value.get_text("code"), Some("bad_request"));
    value
}

#[test]
fn malformed_arguments_answer_with_a_typed_object_on_stdout() {
    // Destination shape: the HOST:PATH forms are the one place rx takes a
    // compound argument, so the error names the form it wanted.
    let put = is_bad_request(&do_put("somehost", None).unwrap_err());
    assert!(put.get_text("hint").unwrap_or_default().contains("rx put"));
    is_bad_request(&do_get("somehost", None).unwrap_err());

    // Option values rx parses itself.
    let run = Command::Run {
        host: "h".to_string(),
        command: vec!["true".to_string()],
        cwd: None,
        env: vec!["NOEQUALS".to_string()],
        timeout: None,
        keep_stdin_open: false,
        keep: false,
    };
    match route_via_ssh(run, false) {
        Plan::Reply(r) => {
            is_bad_request(&r);
        }
        other => panic!("expected a rejection, got {other:?}"),
    }
    is_bad_request(&do_put("h:/tmp/x", Some("9999")).unwrap_err());
}

/// What the argument parser says to `args`, as it renders it.
fn rendered(args: &[&str]) -> String {
    let host = clap::Arg::new("host").required(true);
    let policy = clap::Arg::new("auto-deploy")
        .long("auto-deploy")
        .value_parser(["on", "local", "off"]);
    let rx = clap::Command::new("rx")
        .subcommand_required(true)
        .arg(policy)
        .subcommand(clap::Command::new("ping").arg(host.clone()))
        .subcommand(clap::Command::new("status").arg(host.clone()))
        .subcommand(clap::Command::new("run").arg(host));
    let err = rx
        .try_get_matches_from(std::iter::once(&"rx").chain(args))
        .unwrap_err();
    err.render().ansi().to_string()
}

#[test]
fn parser_rejections_are_typed_objects_on_stderr() {
    // An unknown subcommand, a missing required argument, a bad enum value and
    // a surplus positional are one class of mistake and answer the same way.
    for args in [
        &["nosuchcommand"][..],
        &["run"][..],
        &["--auto-deploy", "bogus", "ping", "h"][..],
        &["ping", "h1", "h2"][..],
        &["--nosuchflag"][..],
    ] {
        let (answer, exit) = parse_failure(ParseKind::Rejected, &rendered(args));
        assert_eq!(exit, 2, "expected exit 2 for {args:?}");
        let value = is_bad_request(&answer.expect("an object"));
        assert_eq!(flag(&value, "retryable"), Some(false), "for {args:?}");
        assert!(value.get_text("hint").is_some(), "for {args:?}");
        let message = value.get_text("message").unwrap();
        assert!(!message.is_empty() && !message.contains('\n'), "{message}");
        assert!(!message.contains('\u{1b}'), "{message}");
    }
    let (answer, _) = parse_failure(ParseKind::Rejected, &rendered(&["statsu", "h"]));
    let value = is_bad_request(&answer.expect("an object"));
    assert_eq!(
        value.get_text("message"),
        Some("unrecognized subcommand 'statsu'")
    );
    assert!(value.get_text("hint").unwrap().contains("'status'"));
}
