use rem_exec::deploy::{DeployPolicy, DeployStatus};
use rem_exec::error::{IoError, IoKind, RemExecError};
use rem_exec::protocol::{ErrorCode, Response};
use rem_exec::ssh::{
    auto_deploy_after_deploy, auto_deploy_after_probe, auto_deploy_next, classify_ssh_failure,
    control_path, parse_serve_output, remote_command, serve_request, serve_request_auto_deploy,
    serve_request_framed, serve_with_body, ssh_command, validate_host, AutoEvent, AutoStep, RemoteArgs,
    SshOutput, REMOTE_BIN,
};

#[test]
fn classify_ssh_failure_maps_known_phrases() {
    assert_eq!(
        classify_ssh_failure("ssh: Could not resolve hostname foo: Name or service not known"),
        Some(ErrorCode::SshUnreachable)
    );
    assert_eq!(
        classify_ssh_failure("connect to host x port 22: Connection refused"),
        Some(ErrorCode::SshUnreachable)
    );
    assert_eq!(
        classify_ssh_failure("ssh: connect to host x port 22: No route to host"),
        Some(ErrorCode::SshUnreachable)
    );
    assert_eq!(
        classify_ssh_failure("ssh: connect to host x port 22: Operation timed out"),
        Some(ErrorCode::SshUnreachable)
    );
    assert_eq!(
        classify_ssh_failure("foo@bar: Permission denied (publickey)."),
        Some(ErrorCode::SshAuth)
    );
    assert_eq!(
        classify_ssh_failure("Received disconnect from x: Too many authentication failures"),
        Some(ErrorCode::SshAuth)
    );
    // Host-key mismatch and unknown text stay untyped rather than mislabeled.
    assert_eq!(classify_ssh_failure("Host key verification failed."), None);
    assert_eq!(classify_ssh_failure("some unrelated failure"), None);
}

// A remote command's own stdout/stderr is merged into the ssh channel's
// stderr. Bare "publickey" in that text must not be read as an auth
// failure, because that return path suppresses auto-deploy.
#[test]
fn classify_ssh_failure_ignores_bare_publickey_in_command_output() {
    assert_eq!(
        classify_ssh_failure("ssh-keygen: writing new key: publickey saved"),
        None
    );
}

#[test]
fn validate_host_accepts_real_destinations() {
    for h in [
        "example.com",
        "user@example.com",
        "10.0.0.1",
        "ssh://user@example.com:2222",
        "[2001:db8::1]",
        "site-router1",
        "host_with_underscores",
    ] {
        assert!(validate_host(h).is_ok(), "{h} must be accepted");
    }
}

#[test]
fn validate_host_rejects_option_shaped_and_malformed_destinations() {
    for h in [
        "",
        "-oProxyCommand=touch /tmp/pwn",
        "-vvv",
        "--",
        "host with space",
        "host\nProxyCommand=x",
        "host\0evil",
        "host\tx",
    ] {
        assert!(validate_host(h).is_err(), "{h:?} must be rejected");
    }
}

#[test]
fn a_bad_host_is_quoted_in_its_message() {
    assert_eq!(
        validate_host("host\tx").unwrap_err().message(),
        "invalid host \"host\\tx\": contains a control character ('\\t')"
    );
    assert_eq!(
        validate_host("a b").unwrap_err().message(),
        "invalid host \"a b\": contains whitespace (' ')"
    );
    assert_eq!(
        validate_host("").unwrap_err().message(),
        "invalid host \"\": empty"
    );
}

// `--` is the boundary that makes an unvalidated host harmless, so assert
// its position rather than trusting that every call site validates first.
#[test]
fn ssh_command_terminates_options_before_the_destination() {
    let socket = control_path("/run/user/7/rem-exec", true);
    for path in [None, socket.as_deref()] {
        let args: Vec<String> = ssh_command("example.com", path);

        let dash = args
            .iter()
            .position(|a| a == "--")
            .expect("ssh argv must contain '--'");
        assert_eq!(
            args.get(dash + 1).map(String::as_str),
            Some("example.com"),
            "the destination must come directly after '--': {args:?}"
        );
        assert!(
            !args[..dash].iter().any(|a| a == "example.com"),
            "nothing may place the destination before '--': {args:?}"
        );
    }
}

#[test]
fn a_remote_command_follows_the_destination() {
    assert_eq!(
        remote_command("h", None, &RemoteArgs::pipe_stdin("0123abcd", true)),
        vec!["--", "h", REMOTE_BIN, "pipe-stdin", "0123abcd", "--no-close"]
    );
    assert_eq!(
        RemoteArgs::follow("0123abcd").as_str_slice(),
        vec!["follow", "0123abcd", "stdout"]
    );
    assert_eq!(RemoteArgs::version().as_str_slice(), vec!["version"]);
    assert_eq!(control_path("/b", false), None);
    assert_eq!(control_path("/b", true).as_deref(), Some("/b/ssh/cm-%C"));
}

#[test]
fn a_request_is_its_line_then_the_raw_body() {
    assert_eq!(
        serve_request("{\"action\":\"ping\"}", &[0, 0xff]),
        b"{\"action\":\"ping\"}\n\x00\xff"
    );
    assert_eq!(
        serve_request_framed("{}", b"ab"),
        b"{}\n\x02\x00\x00\x00ab\x00\x00\x00\x00\x02\x00\x00\x00\x00\x00\x00\x00"
    );
}

fn output(success: bool, stdout: &[u8], stderr: &[u8]) -> SshOutput {
    SshOutput {
        success,
        status: "exit status: 255".to_string(),
        stdout: stdout.to_vec(),
        stderr: stderr.to_vec(),
    }
}

#[test]
fn an_answer_is_the_trimmed_output_of_a_successful_call() {
    assert_eq!(
        parse_serve_output(&output(true, b" {\"type\":\"ping\"}\n", b"")).unwrap(),
        "{\"type\":\"ping\"}"
    );
    assert_eq!(
        parse_serve_output(&output(true, b" \n", b""))
            .unwrap_err()
            .message(),
        "SSH error: empty response from remote"
    );
    // What is not text is replaced, not dropped.
    assert_eq!(
        parse_serve_output(&output(false, b"", b"bad \xff"))
            .unwrap_err()
            .message(),
        "SSH error: SSH exited with exit status: 255: bad \u{fffd}"
    );
}

fn broken_pipe() -> IoError {
    IoError {
        kind: IoKind::BrokenPipe,
        message: "Broken pipe".to_string(),
    }
}

#[test]
fn a_typed_answer_beats_a_body_that_could_not_be_written() {
    let refused = Response::error_code(ErrorCode::NotFound, "no such directory");
    assert!(matches!(
        serve_with_body(Ok(refused), Err(broken_pipe())),
        Ok(Response::Error { .. })
    ));
    // A success cannot be trusted when the body did not arrive.
    assert!(matches!(
        serve_with_body(Ok(Response::Written { bytes: 3 }), Err(broken_pipe())),
        Err(RemExecError::Io(_))
    ));
    assert!(matches!(
        serve_with_body(Ok(Response::Written { bytes: 3 }), Ok(())),
        Ok(Response::Written { bytes: 3 })
    ));
}

#[test]
fn a_missing_rxd_is_probed_for_and_deployed_only_where_the_policy_says_so() {
    let missing = || RemExecError::Ssh("rxd: not found".to_string());
    let auth = RemExecError::Ssh("Permission denied (publickey).".to_string());
    assert!(matches!(
        serve_request_auto_deploy(Err(auth)),
        AutoStep::Finish(Err(RemExecError::Ssh(_)))
    ));
    assert!(matches!(
        serve_request_auto_deploy(Err(missing())),
        AutoStep::Probe(RemExecError::Ssh(_))
    ));
    match auto_deploy_after_probe("h", missing(), DeployStatus::Missing, DeployPolicy::Off) {
        AutoStep::Finish(Ok(Response::Error { code, .. })) => {
            assert_eq!(code, Some(ErrorCode::NotDeployed))
        }
        other => panic!("expected not_deployed, got {other:?}"),
    }
    match auto_deploy_after_probe("h", missing(), DeployStatus::Missing, DeployPolicy::Local) {
        AutoStep::Deploy { opts, .. } => assert!(!opts.allow_fetch && !opts.allow_downgrade),
        other => panic!("expected a deploy, got {other:?}"),
    }
    match auto_deploy_after_deploy("h", missing(), Err(RemExecError::Other("no cache".to_string()))) {
        AutoStep::Finish(Err(e)) => assert_eq!(
            e.message(),
            "SSH error: auto-deploy to h failed: no cache (original: SSH error: rxd: not found)"
        ),
        other => panic!("expected both failures, got {other:?}"),
    }
}

#[test]
fn a_request_is_sent_at_most_once_more() {
    let missing = || RemExecError::Ssh("rxd: not found".to_string());
    let step = serve_request_auto_deploy(Err(missing()));
    let probed = AutoEvent::Probed(DeployStatus::Missing);
    let step = auto_deploy_next("h", DeployPolicy::On, step, probed);
    assert!(matches!(&step, AutoStep::Deploy { opts, .. } if opts.allow_fetch));
    let step = auto_deploy_next("h", DeployPolicy::On, step, AutoEvent::Deployed(Ok(())));
    assert!(matches!(step, AutoStep::Retry));
    // The same failure again is final.
    let step = auto_deploy_next("h", DeployPolicy::On, step, AutoEvent::Sent(Err(missing())));
    assert!(matches!(step, AutoStep::Finish(Err(RemExecError::Ssh(_)))));
}
