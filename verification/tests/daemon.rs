use rem_exec::daemon::server::{
    clean_host, daemon_status, deployed, dispatch, fork_failed, forward, handle_connection,
    handle_read, handle_start, launched, recorded_pid, start_daemon, status_response, stop_daemon,
    stopped, CacheRead, Dispatch, StartPlan,
};
use rem_exec::daemon::state::DaemonState;
use rem_exec::daemon::stream::{follow_ended, run_follow, stream_with_retry, StreamStep};
use rem_exec::daemon::{invalid_response, local_base, pid_path, socket_path};
use rem_exec::deploy::DeployResult;
use rem_exec::error::RemExecError;
use rem_exec::json::Json;
use rem_exec::protocol::{DaemonRequest, DaemonResponse, Request, Response};

#[test]
fn write_with_invalid_base64_fails_loud_without_forwarding() {
    // Corrupt base64 must not become an empty body silently forwarded as a
    // success — it returns a typed bad_request error (and never reaches SSH).
    let req = DaemonRequest::Write {
        host: "unused".to_string(),
        id: "0123abcd".to_string(),
        data_b64: "!!!!".to_string(),
    };
    match dispatch(req) {
        Dispatch::Reply(DaemonResponse::Answer { data }) => {
            assert_eq!(data.get_text("type"), Some("error"));
            assert_eq!(data.get_text("code"), Some("bad_request"));
        }
        other => panic!("expected a wrapped error response, got {other:?}"),
    }
}

#[test]
fn a_body_with_bytes_behind_its_padding_is_not_forwarded() {
    let req = DaemonRequest::Write {
        host: "unused".to_string(),
        id: "0123abcd".to_string(),
        data_b64: "Zg==!".to_string(),
    };
    match dispatch(req) {
        Dispatch::Reply(DaemonResponse::Answer { data }) => {
            assert_eq!(data.get_text("code"), Some("bad_request"));
            assert_eq!(
                data.get_text("message"),
                Some("invalid base64 in write data: base64: invalid byte 0x21")
            );
        }
        other => panic!("expected a wrapped error response, got {other:?}"),
    }
}

#[test]
fn local_cache_paths_do_not_use_raw_host_or_process_components() {
    let state = DaemonState::new("/cache");

    assert_eq!(
        state.local_dir("example.com", "0123abcd"),
        "/cache/c-example.com/c-0123abcd"
    );
    assert_eq!(
        state.local_dir("../host", "../process"),
        "/cache/c-..%2fhost/c-..%2fprocess"
    );
    assert_eq!(state.host_dir("a:b é"), "/cache/c-a%3ab%20%c3%a9");
}

#[test]
fn decoded_bodies_are_forwarded_byte_for_byte() {
    let req = DaemonRequest::Write {
        host: "h".to_string(),
        id: "0123abcd".to_string(),
        data_b64: "AP8K".to_string(),
    };
    match dispatch(req) {
        Dispatch::Forward {
            host,
            request: Request::Write { id },
            body,
        } => {
            assert_eq!(host, "h");
            assert_eq!(id, "0123abcd");
            assert_eq!(body, [0, 0xff, 0x0a]);
        }
        other => panic!("expected a forwarded write, got {other:?}"),
    }
    assert!(matches!(
        dispatch(DaemonRequest::Clean {
            host: "h".to_string()
        }),
        Dispatch::Clean { .. }
    ));
    assert!(matches!(
        dispatch(DaemonRequest::DaemonStop),
        Dispatch::Stop
    ));
    match dispatch(DaemonRequest::Stderr {
        host: "h".to_string(),
        id: "0123abcd".to_string(),
        offset: Some(4),
        limit: None,
    }) {
        Dispatch::Read { stream, offset, .. } => {
            assert_eq!(stream, "stderr");
            assert_eq!(offset, Some(4));
        }
        other => panic!("expected a read, got {other:?}"),
    }
}

#[test]
fn a_started_process_is_tracked_until_its_host_is_cleaned() {
    let mut state = DaemonState::new("/cache");
    assert_eq!(state.summary(), (0, 0));
    for (host, id) in [("a", "00000001"), ("a", "00000002"), ("b", "00000001")] {
        let result = Ok(Response::Started { id: id.to_string() });
        let (reply, dir) = handle_start(&mut state, host, &result);
        assert!(matches!(reply, DaemonResponse::Answer { .. }));
        assert_eq!(dir, Some(format!("/cache/c-{host}/c-{id}")));
    }
    assert_eq!(state.summary(), (2, 3));
    // A second start under the same ID replaces the first.
    let again = Ok(Response::Started {
        id: "00000001".to_string(),
    });
    handle_start(&mut state, "a", &again);
    assert_eq!(state.summary(), (2, 3));
    assert_eq!(state.host_mut("a").processes.len(), 2);

    let failed = Err(RemExecError::Ssh("Connection refused".to_string()));
    let (reply, dir) = handle_start(&mut state, "c", &failed);
    assert_eq!(dir, None);
    match reply {
        DaemonResponse::Error { message } => assert_eq!(message, "SSH error: Connection refused"),
        other => panic!("expected an error, got {other:?}"),
    }
    assert_eq!(state.summary(), (2, 3));

    assert_eq!(clean_host(&mut state, "a"), "/cache/c-a");
    assert_eq!(state.summary(), (2, 1));
    assert_eq!(clean_host(&mut state, "unknown"), "/cache/c-unknown");
    assert_eq!(state.summary(), (2, 1));
}

#[test]
fn a_cached_stream_is_read_locally() {
    let data = CacheRead::Data {
        bytes: b"out\n".to_vec(),
        size: 4,
    };
    match handle_read("0123abcd", "stdout", None, None, &data) {
        Ok(DaemonResponse::Answer { data }) => {
            assert_eq!(data.get_text("data"), Some("out\n"));
            assert_eq!(data.get_int("size"), Some(4));
        }
        other => panic!("expected output, got {other:?}"),
    }
    match handle_read("0123abcd", "stdout", Some(2), Some(9), &CacheRead::Absent) {
        Err(Request::Read {
            id,
            stream,
            offset,
            limit,
        }) => {
            assert_eq!((id.as_str(), stream.as_str()), ("0123abcd", "stdout"));
            assert_eq!((offset, limit), (Some(2), Some(9)));
        }
        other => panic!("expected a request, got {other:?}"),
    }
    match handle_read("i", "stdout", None, None, &CacheRead::Failed("EIO".to_string())) {
        Ok(DaemonResponse::Error { message }) => {
            assert_eq!(message, "failed to read local cache: EIO")
        }
        other => panic!("expected an error, got {other:?}"),
    }
}

fn object(v: &Json) -> (Option<&str>, Option<bool>, Option<bool>) {
    let flag = |key: &str| match v.get(key) {
        Some(Json::Bool(b)) => Some(*b),
        _ => None,
    };
    (v.get_text("action"), flag("running"), flag("changed"))
}

#[test]
fn control_commands_are_idempotent() {
    match start_daemon(true, true, recorded_pid(Some("77\n"))) {
        StartPlan::Already(v) => {
            assert_eq!(v.get_text("type"), Some("daemon"));
            assert_eq!(object(&v), (Some("start"), Some(true), Some(false)));
            assert_eq!(v.get_int("pid"), Some(77));
        }
        other => panic!("expected a running daemon, got {other:?}"),
    }
    assert!(matches!(
        start_daemon(true, false, None),
        StartPlan::Launch { remove_stale: true }
    ));
    assert!(matches!(
        start_daemon(false, false, None),
        StartPlan::Launch {
            remove_stale: false
        }
    ));
    let v = launched(78, true).unwrap();
    assert_eq!(object(&v), (Some("start"), Some(true), Some(true)));
    assert!(launched(78, false).is_err());
    let v = stop_daemon(Err(RemExecError::DaemonNotRunning)).unwrap();
    assert_eq!(object(&v), (Some("stop"), Some(false), Some(false)));
    let v = stop_daemon(Ok(stopped())).unwrap();
    assert_eq!(object(&v), (Some("stop"), Some(false), Some(true)));
    assert!(stop_daemon(Err(RemExecError::Json("bad".to_string()))).is_err());
    let v = daemon_status(Err(RemExecError::DaemonNotRunning)).unwrap();
    assert_eq!(object(&v), (Some("status"), Some(false), Some(false)));
    let v = daemon_status(Ok(status_response(2, 3))).unwrap();
    assert_eq!(object(&v), (Some("status"), Some(true), Some(false)));
    assert_eq!(v.get("detail").unwrap().get_int("processes"), Some(3));
    assert_eq!(fork_failed("EAGAIN").message(), "fork failed: EAGAIN");
}

#[test]
fn the_daemon_relays_answers_and_messages() {
    match forward(&Ok(Response::Written { bytes: 3 })) {
        DaemonResponse::Answer { data } => assert_eq!(data.get_int("bytes"), Some(3)),
        other => panic!("expected an answer, got {other:?}"),
    }
    let result = Ok(DeployResult {
        host: "h".to_string(),
        arch: "x86_64".to_string(),
        version: "0.4.0".to_string(),
        changed: true,
    });
    match deployed(&result) {
        DaemonResponse::Answer { data } => assert_eq!(data.get_text("arch"), Some("x86_64")),
        other => panic!("expected an answer, got {other:?}"),
    }
    match handle_connection("expected value") {
        DaemonResponse::Error { message } => assert_eq!(message, "invalid request: expected value"),
        other => panic!("expected an error, got {other:?}"),
    }
    assert_eq!(
        invalid_response("eof", b"{\xff").message(),
        "protocol error: invalid daemon response: eof: {\u{fffd}"
    );
}

#[test]
fn the_daemon_lives_below_the_runtime_directory() {
    assert_eq!(
        socket_path(Some("/run/user/7"), 7),
        "/run/user/7/rem-exec/daemon.sock"
    );
    assert_eq!(pid_path(None, 7), "/tmp/rem-exec-7/rem-exec/daemon.pid");
    assert_eq!(local_base(None, 7), "/tmp/rem-exec-7/rem-exec/data");
}

#[test]
fn a_stream_is_followed_again_with_growing_pauses() {
    let mut backoff = 1000;
    let mut waits = Vec::new();
    for _ in 0..7 {
        match stream_with_retry(false, backoff) {
            StreamStep::Retry {
                wait_ms,
                backoff_ms,
            } => {
                waits.push(wait_ms);
                backoff = backoff_ms;
            }
            StreamStep::Done => panic!("a failure is retried"),
        }
    }
    assert_eq!(waits, [1000, 2000, 4000, 8000, 16000, 30000, 30000]);
    assert_eq!(stream_with_retry(true, 1000), StreamStep::Done);
    assert_eq!(
        run_follow("h", None, "0123abcd", "stderr"),
        vec!["--", "h", ".local/bin/rxd", "follow", "0123abcd", "stderr"]
    );
    assert!(follow_ended(true, "exit status: 0").is_ok());
    assert_eq!(
        follow_ended(false, "exit status: 255").unwrap_err().message,
        "SSH exited with exit status: 255"
    );
}

/// Daemon control is a command like any other: it answers with an object, and
/// asking for a state that already holds is success, not failure.
#[test]
fn daemon_control_answers_with_an_object() {
    let value = daemon_status(Err(RemExecError::DaemonNotRunning)).unwrap();
    assert_eq!(value.get_text("type"), Some("daemon"));
    assert_eq!(value.get_text("action"), Some("status"));
    assert!(matches!(value.get("running"), Some(Json::Bool(_))));

    // Stopping a daemon that is not running is the requested state.
    let value = stop_daemon(Err(RemExecError::DaemonNotRunning)).expect("a stop that is no change");
    assert_eq!(value.get_text("type"), Some("daemon"));
    assert_eq!(object(&value), (Some("stop"), Some(false), Some(false)));
}
