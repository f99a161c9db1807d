use rem_exec::base64_decode;
use rem_exec::env::{parse_env, EnvMap};
use rem_exec::error::{IoError, IoKind, RemExecError};
use rem_exec::framing::FrameError;
use rem_exec::json::Json;
use rem_exec::process::{ProcessDir, ProcessState};
use rem_exec::protocol::{Encoding, ErrorCode, Request, Response, PROTOCOL_VERSION};
use rem_exec::remote::actions::{
    await_exit_or_timeout, clean, close_stdin, finalize_kill_status, kill, kill_step,
    killed_response, list,
    maybe_ephemeral_clean, process_duration_ms, read_output, read_target, read_window,
    record_kill_outcome, refuse_empty, resolve_state, run, run_id, size, status, stdin_plan,
    timeout_or_default, wait, write_stdin, BaseEntry, KillEvent, KillPhase, KillTarget, Poll,
    ReadOutcome, StateFiles, StatusFiles, RUN_EPHEMERAL_CAP,
};
use rem_exec::remote::install::{
    apply_chown, begin_install, install_file, put, put_stream, resolve_uid, CopyFault, InstallEvent,
    InstallPhase, UNCHANGED,
};
use rem_exec::remote::serve::{
    get_open_error, get_succeeded, ping_response, read_request_line, serve, serve_get, version_response, BodyUse,
    FileMeta, Route,
};
use rem_exec::remote::hostinfo::identity;
use rem_exec::remote::start::{
    command_fault, ended_as, parent_step, refuse_start, runner_step, start, CommandFault, RunnerAct,
    RunnerEvent,
};
use rem_exec::remote::streams::{
    follow, pipe_stdin, read_tail, tail_start, write_all_nonblocking, FeedStep, FollowStep,
    PipeEvent, PipeStep, Stream, WriteResult, RUN_INLINE_CAP,
};
use rem_exec::ssh::serve_request;

fn code(r: &Response) -> Option<ErrorCode> {
    match r {
        Response::Error { code, .. } => *code,
        _ => None,
    }
}

fn text(r: &Response) -> &str {
    match r {
        Response::Error { message, .. } => message,
        _ => "",
    }
}

fn hint(r: &Response) -> Option<&str> {
    match r {
        Response::Error { hint, .. } => hint.as_deref(),
        _ => None,
    }
}

fn io(kind: IoKind, message: &str) -> IoError {
    IoError {
        kind,
        message: message.to_string(),
    }
}

fn words(all: &[&str]) -> Vec<String> {
    all.iter().map(|w| w.to_string()).collect()
}

fn files(status: Option<&str>) -> StateFiles {
    StateFiles {
        status: status.map(str::to_string),
        exec_error: None,
        pid: None,
        runner_pid: None,
        command_alive: false,
        runner_alive: false,
    }
}

fn stream(bytes: &[u8]) -> Stream {
    Stream {
        size: bytes.len() as u64,
        tail: Some(bytes.to_vec()),
    }
}

#[test]
fn finalize_kill_status_preserves_runner_recorded_terminal_status() {
    // Still running: the runner never recorded a terminal status (it was in
    // the killed group), so kill owns the outcome.
    assert_eq!(
        finalize_kill_status(&ProcessState::Running),
        Some("exited(killed)")
    );
    // Any terminal status is the runner's truth — never clobber it with the
    // generic exited(killed).
    assert_eq!(finalize_kill_status(&ProcessState::Exited(0)), None);
    assert_eq!(finalize_kill_status(&ProcessState::Exited(137)), None);
    assert_eq!(finalize_kill_status(&ProcessState::Signaled(15)), None);
    assert_eq!(finalize_kill_status(&ProcessState::ExitedKilled), None);
    assert_eq!(finalize_kill_status(&ProcessState::ExitedUnknown), None);
    assert_eq!(finalize_kill_status(&ProcessState::ExecFailed(2)), None);
    assert_eq!(record_kill_outcome(Some("signaled(15)\n")), None);
    assert_eq!(record_kill_outcome(Some("running\n")), Some("exited(killed)"));
    assert_eq!(record_kill_outcome(None), Some("exited(killed)"));
}

// ---------------------------------------------------------------------------
// States
// ---------------------------------------------------------------------------

#[test]
fn a_stale_running_status_is_healed_only_when_nothing_lives() {
    let dir = ProcessDir::new("/b", "0123abcd");
    assert_eq!(resolve_state(&dir, &files(None)), (None, false));
    // No PID yet: the process may still be starting.
    assert_eq!(
        resolve_state(&dir, &files(Some("running\n"))),
        (Some(ProcessState::Running), false)
    );
    let mut f = files(Some("running"));
    f.pid = Some("10".to_string());
    f.runner_pid = Some("9".to_string());
    assert_eq!(
        resolve_state(&dir, &f),
        (Some(ProcessState::ExitedUnknown), true)
    );
    f.runner_alive = true;
    assert_eq!(resolve_state(&dir, &f), (Some(ProcessState::Running), false));
    f.status = Some("exited(127)".to_string());
    f.exec_error = Some("2\n".to_string());
    assert_eq!(
        resolve_state(&dir, &f),
        (Some(ProcessState::ExecFailed(2)), false)
    );
}

fn status_files() -> StatusFiles {
    StatusFiles {
        cmd: Some("sleep 10\n".to_string()),
        started: Some("100\n".to_string()),
        ended: None,
        stdout_len: Some(4),
        stderr_len: None,
    }
}

#[test]
fn a_status_reports_state_and_sizes() {
    match status("0123abcd", Some(ProcessState::Exited(7)), &status_files()) {
        Response::Status {
            id,
            state,
            cmd,
            started,
            ended,
            exit_code,
            signal,
            stdout_size,
            stderr_size,
        } => {
            assert_eq!(id, "0123abcd");
            assert_eq!(state, "exited(7)");
            assert_eq!(cmd, "sleep 10");
            assert_eq!((started, ended), (100, None));
            assert_eq!((exit_code, signal), (Some(7), None));
            assert_eq!((stdout_size, stderr_size), (4, 0));
        }
        other => panic!("expected a status, got {other:?}"),
    }
    match status("0123abcd", Some(ProcessState::ExecFailed(2)), &status_files()) {
        Response::Status {
            state, exit_code, ..
        } => {
            assert_eq!(state, "exec_failed(command_not_found)");
            assert_eq!(exit_code, None);
        }
        other => panic!("expected a status, got {other:?}"),
    }
    let bad = status("../abcd", None, &status_files());
    assert_eq!(code(&bad), Some(ErrorCode::InvalidProcessId));
    assert_eq!(text(&bad), "invalid process ID: ../abcd");
}

#[test]
fn missing_process_reports_process_not_found_code() {
    let r = status("0123abcd", None, &status_files());
    assert_eq!(r.to_value().get_text("type"), Some("error"));
    assert_eq!(r.to_value().get_text("code"), Some("process_not_found"));
}

// ---------------------------------------------------------------------------
// Output
// ---------------------------------------------------------------------------

#[test]
fn invalid_stream_is_bad_request() {
    let resp = read_output("0123abcd", "bogus", None, &ReadOutcome::NotOpened);
    assert_eq!(resp.to_value().get_text("type"), Some("error"));
    assert_eq!(resp.to_value().get_text("code"), Some("bad_request"));
}

#[test]
fn invalid_process_id_is_rejected_with_typed_error() {
    let read = read_output("../sentinel", "stdout", None, &ReadOutcome::NotOpened);
    let value = read.to_value();
    assert_eq!(value.get_text("type"), Some("error"));
    assert_eq!(value.get_text("code"), Some("invalid_process_id"));
    assert!(value.get("data").is_none());
    // Nothing outside the base is ever opened.
    assert!(read_target("../sentinel", "stdout", "/b").is_err());
    assert_eq!(
        read_target("0123abcd", "stdout", "/b").unwrap(),
        "/b/0123abcd/stdout"
    );
}

#[test]
fn a_read_stays_within_the_file_and_its_limit() {
    assert_eq!(read_window(None, None, 10), (0, 10));
    assert_eq!(read_window(Some(4), Some(3), 10), (4, 3));
    assert_eq!(read_window(Some(8), Some(3), 10), (8, 2));
    assert_eq!(read_window(Some(11), None, 10), (11, 0));
    assert_eq!(read_window(None, None, 5_000_000), (0, 1_048_576));
}

#[test]
fn output_is_text_where_it_can_be() {
    let data = |bytes: &[u8]| ReadOutcome::Data {
        bytes: bytes.to_vec(),
        size: 9,
    };
    match read_output("0123abcd", "stdout", Some(5), &data(b"out\n")) {
        Response::Output {
            data,
            encoding,
            offset,
            size,
        } => {
            assert_eq!(data, "out\n");
            assert_eq!(encoding, Encoding::Utf8);
            assert_eq!((offset, size), (5, 9));
        }
        other => panic!("expected output, got {other:?}"),
    }
    match read_output("0123abcd", "stderr", None, &data(&[0, 1])) {
        Response::Output { data, encoding, .. } => {
            assert_eq!(data, "AAE=");
            assert_eq!(encoding, Encoding::Base64);
        }
        other => panic!("expected output, got {other:?}"),
    }
    let failed = ReadOutcome::SeekFailed("no seek".to_string());
    assert_eq!(
        text(&read_output("0123abcd", "stdout", None, &failed)),
        "seek failed: no seek"
    );
    let failed = ReadOutcome::ReadFailed("no read".to_string());
    assert_eq!(
        text(&read_output("0123abcd", "stdout", None, &failed)),
        "read failed: no read"
    );
    let gone = read_output("0123abcd", "stdout", None, &ReadOutcome::NotOpened);
    assert_eq!(code(&gone), Some(ErrorCode::ProcessNotFound));
    match size("0123abcd", "stderr", Some(5), Some(6)) {
        Response::Output { size, .. } => assert_eq!(size, 6),
        other => panic!("expected output, got {other:?}"),
    }
}

#[test]
fn only_the_tail_of_large_output_is_inlined() {
    assert_eq!(tail_start(RUN_INLINE_CAP), (0, false));
    assert_eq!(tail_start(RUN_INLINE_CAP + 7), (7, true));
    assert_eq!(
        read_tail(&stream(b"out\n")),
        ("out\n".to_string(), Encoding::Utf8, 4, false)
    );
    let missing = Stream {
        size: 300_000,
        tail: None,
    };
    assert_eq!(
        read_tail(&missing),
        (String::new(), Encoding::Utf8, 300_000, false)
    );
}

// ---------------------------------------------------------------------------
// Input
// ---------------------------------------------------------------------------

#[test]
fn a_write_reports_what_was_fed() {
    assert!(matches!(
        write_stdin("0123abcd", true, Some("running"), Ok(7)),
        Response::Written { bytes: 7 }
    ));
    let slow = write_stdin(
        "0123abcd",
        true,
        Some("running"),
        Err(io(IoKind::TimedOut, "full")),
    );
    assert_eq!(code(&slow), Some(ErrorCode::Timeout));
    assert_eq!(text(&slow), "write to stdin timed out: full");
    let broken = write_stdin("0123abcd", true, None, Err(io(IoKind::Other, "ENXIO")));
    assert_eq!(code(&broken), Some(ErrorCode::Internal));
    let over = write_stdin("0123abcd", true, Some("exited(0)"), Ok(7));
    assert_eq!(code(&over), Some(ErrorCode::ProcessExited));
    let gone = write_stdin("0123abcd", false, None, Ok(7));
    assert_eq!(code(&gone), Some(ErrorCode::ProcessNotFound));
}

#[test]
fn closing_stdin_twice_is_told_apart_from_an_exit() {
    let r = close_stdin("0123abcd", true, Some("running"), true, None);
    assert!(matches!(r, Response::Written { bytes: 0 }));
    let again = close_stdin(
        "0123abcd",
        true,
        Some("running"),
        false,
        Some(ProcessState::Running),
    );
    assert_eq!(text(&again), "stdin already closed or no holder found");
    let raced = close_stdin(
        "0123abcd",
        true,
        Some("running"),
        false,
        Some(ProcessState::Exited(0)),
    );
    assert_eq!(code(&raced), Some(ErrorCode::ProcessExited));
}

#[test]
fn a_fifo_is_fed_in_pieces_until_all_is_taken() {
    let data: Vec<u8> = (0..100u8).collect();
    let takes = [7usize, 60, 33];
    let mut from = 0;
    let mut out: Vec<u8> = Vec::new();
    for n in takes {
        out.extend_from_slice(&data[from..from + n]);
        match write_all_nonblocking(from, data.len(), WriteResult::Took(n), 0) {
            FeedStep::Write { from: next } => from = next,
            FeedStep::Done { written } => from = written,
            other => panic!("unexpected step {other:?}"),
        }
    }
    assert_eq!(from, data.len());
    assert_eq!(out, data);

    let step = |kind, ms| {
        write_all_nonblocking(3, 9, WriteResult::Failed(io(kind, "e")), ms)
    };
    assert!(matches!(step(IoKind::Interrupted, 0), FeedStep::Write { from: 3 }));
    assert!(matches!(step(IoKind::WouldBlock, 29_999), FeedStep::Pause { from: 3 }));
    assert!(matches!(
        step(IoKind::WouldBlock, 30_000),
        FeedStep::Fail(IoError { kind: IoKind::TimedOut, .. })
    ));
    assert!(matches!(step(IoKind::BrokenPipe, 0), FeedStep::Fail(_)));
    assert!(matches!(
        write_all_nonblocking(3, 9, WriteResult::Took(0), 0),
        FeedStep::Fail(IoError { kind: IoKind::WriteZero, .. })
    ));
}

#[test]
fn a_pipe_closes_the_command_at_the_end_of_input() {
    assert_eq!(
        pipe_stdin(0, 0, PipeEvent::Read(5), false),
        PipeStep::Write { from: 0, to: 5 }
    );
    assert_eq!(
        pipe_stdin(0, 5, PipeEvent::Wrote(2), false),
        PipeStep::Write { from: 2, to: 5 }
    );
    assert_eq!(pipe_stdin(2, 5, PipeEvent::Wrote(3), false), PipeStep::Read);
    assert_eq!(
        pipe_stdin(5, 5, PipeEvent::Read(0), false),
        PipeStep::Close {
            release: true,
            exit: 0
        }
    );
    assert_eq!(
        pipe_stdin(0, 5, PipeEvent::Wrote(0), true),
        PipeStep::Close {
            release: false,
            exit: 1
        }
    );
    assert_eq!(
        pipe_stdin(0, 0, PipeEvent::ReadFailed(IoKind::Interrupted), false),
        PipeStep::Read
    );
}

#[test]
fn a_follower_goes_on_while_the_process_may_write() {
    assert_eq!(follow(Some(3), true), FollowStep::Forward);
    assert_eq!(follow(Some(0), false), FollowStep::Pause);
    assert_eq!(follow(Some(0), true), FollowStep::Drain);
    assert_eq!(follow(None, false), FollowStep::Stop);
}

// ---------------------------------------------------------------------------
// Run and wait
// ---------------------------------------------------------------------------

#[test]
fn run_returns_exit_code_and_text_output_in_one_call() {
    let ended = Some(ProcessState::Exited(42));
    let (resp, _) = run("0123abcd", ended, 12, 30_000, &stream(b"out\n"), &stream(b"err\n"), true);
    let value = resp.to_value();
    assert_eq!(value.get_text("type"), Some("completed"));
    assert_eq!(value.get_int("exit_code"), Some(42));
    assert!(matches!(value.get("signal"), Some(Json::Null)));
    // Text output is inlined verbatim (utf8), not base64 — no decode dance.
    assert_eq!(value.get_text("stdout"), Some("out\n"));
    assert_eq!(value.get_text("stdout_encoding"), Some("utf8"));
    assert_eq!(value.get_text("stderr"), Some("err\n"));
    assert!(matches!(
        value.get("stdout_truncated"),
        Some(Json::Bool(false))
    ));
}

fn finished(out: &Stream, ephemeral: bool) -> (Response, bool) {
    let ended = Some(ProcessState::Exited(0));
    run("0123abcd", ended, 1, 30_000, out, &stream(b""), ephemeral)
}

#[test]
fn run_ephemeral_by_default_removes_process_dir() {
    assert!(finished(&stream(b"ok\n"), true).1);
}

#[test]
fn run_keep_retains_process_dir() {
    assert!(!finished(&stream(b"ok\n"), false).1);
}

#[test]
fn run_ephemeral_skips_when_truncated() {
    // More than the inline cap, so only the tail is carried.
    let out = Stream {
        size: 300 * 1024,
        tail: Some(vec![0u8; 256 * 1024]),
    };
    let (resp, remove) = finished(&out, true);
    assert!(matches!(
        resp,
        Response::Completed {
            stdout_truncated: true,
            ..
        }
    ));
    assert!(!remove);
}

#[test]
fn run_ephemeral_keeps_dir_when_inlined_but_over_ephemeral_cap() {
    let (resp, remove) = finished(&stream(&[0u8; 64 * 1024]), true);
    match resp {
        Response::Completed {
            stdout_truncated,
            stdout_size,
            ..
        } => {
            assert!(!stdout_truncated);
            assert!(stdout_size > 16 * 1024);
        }
        other => panic!("expected a completed run, got {other:?}"),
    }
    assert!(!remove);
    assert!(finished(&stream(&[b'x'; RUN_EPHEMERAL_CAP as usize]), true).1);
}

#[test]
fn run_ephemeral_skips_when_backgrounded() {
    let (resp, remove) = run("0123abcd", None, 1, 150, &stream(b""), &stream(b""), true);
    assert_eq!(resp.to_value().get_text("type"), Some("running"));
    assert!(!remove);
    assert!(!maybe_ephemeral_clean(&resp, true));
    match resp {
        Response::Running { reason, hint, .. } => {
            assert_eq!(reason, "still running after 150ms");
            assert_eq!(
                hint,
                "backgrounded; wait: rx wait HOST 0123abcd · read: rx stdout HOST 0123abcd · stop: rx kill HOST 0123abcd"
            );
        }
        other => panic!("expected a handle, got {other:?}"),
    }
}

#[test]
fn run_reports_missing_command_as_typed_exec_error() {
    // A missing command must be distinguishable from a command that ran and
    // exited 127: exec_error is set, exit_code/signal are null, and stderr
    // explains why. The marker also surfaces in a later status query.
    let reply = command_fault(&CommandFault::ExecFailed {
        program: "rx-no-such-command-zzz".to_string(),
        errno: 2,
        message: "No such file or directory".to_string(),
    });
    assert!(reply.stderr.contains("rx: exec"), "{}", reply.stderr);
    assert!(reply.stderr.contains("rx-no-such-command-zzz"));

    let mut f = files(Some(&reply.status));
    f.exec_error = reply.marker.clone();
    let dir = ProcessDir::new("/b", "0123abcd");
    let (state, _) = resolve_state(&dir, &f);
    let (resp, _) = run(
        "0123abcd",
        state,
        1,
        30_000,
        &stream(b""),
        &stream(reply.stderr.as_bytes()),
        false,
    );
    let value = resp.to_value();
    assert_eq!(value.get_text("type"), Some("completed"));
    assert!(matches!(value.get("exit_code"), Some(Json::Null)));
    assert!(matches!(value.get("signal"), Some(Json::Null)));
    assert_eq!(value.get_text("exec_error"), Some("command_not_found"));
    match status("0123abcd", state, &status_files()) {
        Response::Status {
            state, exit_code, ..
        } => {
            assert_eq!(state, "exec_failed(command_not_found)");
            assert_eq!(exit_code, None);
        }
        other => panic!("expected a status, got {other:?}"),
    }
}

#[test]
fn run_bad_cwd_fails_with_diagnostic() {
    let reply = command_fault(&CommandFault::ChdirFailed {
        dir: "/no/such/dir/xyzzy".to_string(),
        message: "No such file or directory".to_string(),
    });
    let (resp, _) = run(
        "0123abcd",
        Some(ProcessState::parse(&reply.status)),
        1,
        30_000,
        &stream(b""),
        &stream(reply.stderr.as_bytes()),
        true,
    );
    let value = resp.to_value();
    assert_eq!(value.get_text("type"), Some("completed"));
    assert_eq!(value.get_int("exit_code"), Some(127));
    assert!(value.get_text("stderr").unwrap().contains("chdir"));
    assert_eq!(reply.marker, None);
}

#[test]
fn run_reports_signal_termination_structurally() {
    // A wait status of 15: killed by SIGTERM.
    let state = ended_as(15);
    assert_eq!(state, ProcessState::Signaled(15));
    let (resp, _) = run("0123abcd", Some(state), 1, 30_000, &stream(b""), &stream(b""), true);
    let value = resp.to_value();
    assert_eq!(value.get_text("type"), Some("completed"));
    assert!(matches!(value.get("exit_code"), Some(Json::Null)));
    assert_eq!(value.get_int("signal"), Some(15));
}

#[test]
fn a_wait_status_is_an_exit_or_a_signal() {
    assert_eq!(ended_as(7 << 8), ProcessState::Exited(7));
    assert_eq!(ended_as(0), ProcessState::Exited(0));
    assert_eq!(ended_as(255 << 8), ProcessState::Exited(255));
    assert_eq!(ended_as(9), ProcessState::Signaled(9));
    // Killed with a core dump.
    assert_eq!(ended_as(11 | 0x80), ProcessState::Signaled(11));
    // Neither: stopped.
    assert_eq!(ended_as(0x137f), ProcessState::ExitedUnknown);
}

#[test]
fn wait_blocks_until_exit() {
    assert_eq!(
        await_exit_or_timeout(Some(ProcessState::Running), 100, 30_000),
        Poll::Again
    );
    assert_eq!(
        await_exit_or_timeout(Some(ProcessState::Exited(5)), 200, 30_000),
        Poll::Ended(ProcessState::Exited(5))
    );
    let resp = wait(
        "0123abcd",
        true,
        Some(ProcessState::Exited(5)),
        100,
        Some(103),
        30_000,
        &stream(b""),
        &stream(b""),
    );
    match resp {
        Response::Completed {
            exit_code,
            duration_ms,
            ..
        } => {
            assert_eq!(exit_code, Some(5));
            assert_eq!(duration_ms, 3000);
        }
        other => panic!("expected a completed wait, got {other:?}"),
    }
}

#[test]
fn wait_times_out_to_running_handle() {
    assert_eq!(
        await_exit_or_timeout(Some(ProcessState::Running), 150, 150),
        Poll::TimedOut
    );
    let resp = wait("0123abcd", true, None, 0, None, 150, &stream(b""), &stream(b""));
    assert_eq!(resp.to_value().get_text("type"), Some("running"));
}

#[test]
fn wait_on_missing_process_is_typed_error() {
    let resp = wait("0123abcd", false, None, 0, None, 150, &stream(b""), &stream(b""));
    assert_eq!(resp.to_value().get_text("type"), Some("error"));
    assert_eq!(resp.to_value().get_text("code"), Some("process_not_found"));
}

#[test]
fn a_run_needs_a_program_and_plans_its_stdin() {
    let empty = refuse_empty(&[]).expect("an empty command is refused");
    assert_eq!(text(&empty), "run: empty command");
    assert!(refuse_empty(&words(&["true"])).is_none());
    assert_eq!(stdin_plan(b"", false), (false, true));
    assert_eq!(stdin_plan(b"x", true), (true, false));
    assert_eq!(timeout_or_default(None), 30_000);
    assert_eq!(timeout_or_default(Some(5)), 5);
    assert_eq!(process_duration_ms(10, None), 0);
    assert_eq!(process_duration_ms(10, Some(9)), 0);
    assert_eq!(process_duration_ms(0, Some(u64::MAX)), u64::MAX);
    let failed = run_id(Err(RemExecError::ForkFailed("EAGAIN".to_string()))).unwrap_err();
    assert_eq!(text(&failed), "fork failed: EAGAIN");
    assert_eq!(
        run_id(Ok(Response::Started {
            id: "0123abcd".to_string()
        }))
        .unwrap(),
        "0123abcd"
    );
}

// ---------------------------------------------------------------------------
// Kill, list, clean
// ---------------------------------------------------------------------------

#[test]
fn a_kill_escalates_only_against_a_survivor() {
    let (target, phase) = kill("0123abcd", true, Some("running"), Some(9), Some(10)).unwrap();
    assert_eq!(target, Some(KillTarget::Group(9)));
    assert_eq!(phase, KillPhase::Terminate);
    let phase = kill_step(phase, KillEvent::Sent(true), Some(10));
    assert_eq!(phase, KillPhase::Grace);
    let phase = kill_step(phase, KillEvent::Slept, Some(10));
    assert_eq!(phase, KillPhase::Check);
    assert_eq!(
        kill_step(phase, KillEvent::Alive(false), Some(10)),
        KillPhase::Record
    );
    let phase = kill_step(phase, KillEvent::Alive(true), Some(10));
    assert_eq!(phase, KillPhase::Force);
    let phase = kill_step(phase, KillEvent::Sent(true), Some(10));
    assert_eq!(phase, KillPhase::Settle);
    assert_eq!(kill_step(phase, KillEvent::Slept, Some(10)), KillPhase::Record);

    assert_eq!(
        kill("0123abcd", true, Some("running"), None, Some(10)).unwrap().0,
        Some(KillTarget::Process(10))
    );
    assert_eq!(
        kill("0123abcd", true, None, None, None).unwrap(),
        (None, KillPhase::Record)
    );
    let over = kill("0123abcd", true, Some("exited(3)"), Some(9), None).unwrap_err();
    assert_eq!(code(&over), Some(ErrorCode::ProcessExited));
}

fn entry(name: &str, state: Option<ProcessState>) -> BaseEntry {
    BaseEntry {
        name: name.to_string(),
        is_dir: true,
        has_status: true,
        state,
        cmd: "true".to_string(),
    }
}

#[test]
fn only_managed_processes_are_listed_and_only_ended_ones_cleaned() {
    let mut stray = entry("0000aaaa", Some(ProcessState::Exited(0)));
    stray.is_dir = false;
    let mut foreign = entry("0000bbbb", Some(ProcessState::Exited(0)));
    foreign.has_status = false;
    let entries = vec![
        entry("0123abcd", Some(ProcessState::Running)),
        entry("ssh", Some(ProcessState::Exited(0))),
        stray,
        foreign,
        entry("89abcdef", Some(ProcessState::Exited(1))),
        entry("00000000", None),
    ];
    match list(&entries) {
        Response::List { processes } => {
            let shown: Vec<(&str, &str)> = processes
                .iter()
                .map(|p| (p.id.as_str(), p.state.as_str()))
                .collect();
            assert_eq!(
                shown,
                vec![
                    ("0123abcd", "running"),
                    ("89abcdef", "exited(1)"),
                    ("00000000", "unknown")
                ]
            );
        }
        other => panic!("expected a list, got {other:?}"),
    }
    match clean(&entries) {
        Response::Cleaned { removed } => assert_eq!(removed, vec!["89abcdef"]),
        other => panic!("expected a clean, got {other:?}"),
    }
}

// ---------------------------------------------------------------------------
// Installing files
// ---------------------------------------------------------------------------

#[test]
fn a_file_is_installed_by_a_rename_after_everything_else() {
    let mut job = begin_install(
        "/etc/app.conf",
        Some(0o640),
        Some("root".to_string()),
        None,
        "deadbeef",
    )
    .unwrap();
    assert_eq!(job.tmp, "/etc/.rxd-put-deadbeef.tmp");
    let mut phases = vec![job.phase];
    for event in [
        InstallEvent::Worked,
        InstallEvent::Filled(Ok(17)),
        InstallEvent::Worked,
        InstallEvent::Worked,
        InstallEvent::Mode(Some(0o100640)),
        InstallEvent::Worked,
    ] {
        install_file(&mut job, event);
        phases.push(job.phase);
    }
    assert_eq!(
        phases,
        vec![
            InstallPhase::Create,
            InstallPhase::Fill,
            InstallPhase::Chmod(0o640),
            InstallPhase::Chown,
            InstallPhase::Measure,
            InstallPhase::Rename,
            InstallPhase::Finished,
        ]
    );
    match job.answer {
        Some(Response::Copied { path, bytes, mode }) => {
            assert_eq!(path, "/etc/app.conf");
            assert_eq!(bytes, 17);
            assert_eq!(mode.as_deref(), Some("0640"));
        }
        other => panic!("expected a copy, got {other:?}"),
    }
}

#[test]
fn put_to_missing_directory_errors_without_partial_file() {
    let mut job = begin_install("/no/such/dir/xyzzy/file", None, None, None, "0").unwrap();
    install_file(
        &mut job,
        InstallEvent::Failed(io(IoKind::NotFound, "No such file or directory")),
    );
    // Nothing was created, so nothing has to be removed.
    assert_eq!(job.phase, InstallPhase::Finished);
    let answer = job.answer.unwrap();
    assert_eq!(answer.to_value().get_text("type"), Some("error"));
    assert_eq!(code(&answer), Some(ErrorCode::NotFound));
    assert!(hint(&answer).unwrap().contains("mkdir -p /no/such/dir/xyzzy"));
}

#[test]
fn put_rejects_incomplete_transfer_without_installing_file() {
    // Declare far more bytes than the body carries: a short stream (as a dropped
    // connection produces) must be rejected, not renamed into place truncated.
    let payload = b"short body";
    let verdict = put("/t/out.bin", Some(9_999), Ok(payload.len() as u64));
    let resp = match &verdict {
        Err(resp) => resp,
        Ok(_) => panic!("a truncated file must not be installed"),
    };
    assert_eq!(resp.to_value().get_text("type"), Some("error"));
    assert_eq!(resp.to_value().get_text("code"), Some("incomplete_transfer"));
    assert!(matches!(
        resp.to_value().get("retryable"),
        Some(Json::Bool(true))
    ));
    let mut job = begin_install("/t/out.bin", None, None, None, "0").unwrap();
    install_file(&mut job, InstallEvent::Worked);
    install_file(&mut job, InstallEvent::Filled(verdict));
    // The temp file must be cleaned up, not left behind.
    assert_eq!(job.phase, InstallPhase::Discard);
    install_file(&mut job, InstallEvent::Removed);
    assert_eq!(job.phase, InstallPhase::Finished);
    assert_eq!(
        text(&job.answer.unwrap()),
        "incomplete transfer to /t/out.bin: expected 9999 bytes, received 10"
    );
}

#[test]
fn put_accepts_matching_declared_size() {
    let payload = b"exactly these bytes\x00\xff";
    let n = payload.len() as u64;
    assert_eq!(put("/t/out.bin", Some(n), Ok(n)).unwrap(), n);
    assert_eq!(put("/t/out.bin", None, Ok(n)).unwrap(), n);
    let failed = put("/t/out.bin", None, Err(io(IoKind::Other, "disk full"))).unwrap_err();
    assert_eq!(text(&failed), "write failed: disk full");
}

#[test]
fn a_failed_step_discards_the_temp_file() {
    let begun = || {
        let mut job = begin_install("f", Some(0o600), None, Some("g".to_string()), "0").unwrap();
        assert_eq!(job.tmp, "./.rxd-put-0.tmp");
        install_file(&mut job, InstallEvent::Worked);
        install_file(&mut job, InstallEvent::Filled(Ok(1)));
        job
    };
    let mut job = begun();
    install_file(&mut job, InstallEvent::Failed(io(IoKind::Other, "EROFS")));
    assert_eq!(job.phase, InstallPhase::Discard);
    assert_eq!(text(&job.answer.unwrap()), "chmod failed: EROFS");

    let mut job = begun();
    install_file(&mut job, InstallEvent::Worked);
    install_file(&mut job, InstallEvent::NotOwned("unknown group: g".to_string()));
    assert_eq!(job.phase, InstallPhase::Discard);
    let answer = job.answer.unwrap();
    assert_eq!(code(&answer), Some(ErrorCode::Unsupported));
    assert!(hint(&answer).unwrap().contains("privileged rxd"));

    let mut job = begun();
    install_file(&mut job, InstallEvent::Worked);
    install_file(&mut job, InstallEvent::Worked);
    install_file(&mut job, InstallEvent::Mode(None));
    install_file(
        &mut job,
        InstallEvent::Failed(io(IoKind::PermissionDenied, "EPERM")),
    );
    assert_eq!(job.phase, InstallPhase::Discard);
    let answer = job.answer.unwrap();
    assert_eq!(code(&answer), Some(ErrorCode::BadRequest));
    assert_eq!(text(&answer), "rename to f: EPERM");

    let bad = begin_install("/", None, None, None, "0").unwrap_err();
    assert_eq!(text(&bad), "invalid target path: /");
}

#[test]
fn a_streamed_body_is_installed_only_with_its_terminator() {
    assert_eq!(put_stream("/t/f", Ok(()), true, 5, false).unwrap(), 5);
    let cut = put_stream(
        "/t/f",
        Err(CopyFault::Frame(FrameError::UnexpectedEof)),
        false,
        3,
        true,
    )
    .unwrap_err();
    assert_eq!(code(&cut), Some(ErrorCode::IncompleteTransfer));
    assert_eq!(
        text(&cut),
        "incomplete transfer to /t/f: stream ended after 3 bytes without its end marker (sender died or the connection dropped)"
    );
    let lies = put_stream(
        "/t/f",
        Err(CopyFault::Frame(FrameError::Mismatch {
            declared: 99,
            read: 4,
        })),
        false,
        4,
        false,
    )
    .unwrap_err();
    assert_eq!(code(&lies), Some(ErrorCode::IncompleteTransfer));
    assert!(text(&lies).starts_with("/t/f: "), "{}", text(&lies));
    let full = put_stream("/t/f", Err(CopyFault::Io(io(IoKind::Other, "ENOSPC"))), false, 4, false)
        .unwrap_err();
    assert_eq!(code(&full), Some(ErrorCode::Internal));
    let empty = put_stream("/t/f", Ok(()), true, 0, false).unwrap_err();
    assert_eq!(code(&empty), Some(ErrorCode::EmptyStream));
    assert!(hint(&empty).unwrap().contains("--allow-empty"));
    assert_eq!(put_stream("/t/f", Ok(()), true, 0, true).unwrap(), 0);
}

#[test]
fn owners_are_numbers_or_known_names() {
    assert_eq!(resolve_uid("1000", Some(7)), Some(1000));
    assert_eq!(resolve_uid("www-data", Some(33)), Some(33));
    assert_eq!(resolve_uid("nobody-here", None), None);
    let name = |s: &str| Some(s.to_string());
    assert_eq!(apply_chown(&name("root"), &None, Some(0), None).unwrap(), (0, UNCHANGED));
    assert_eq!(
        apply_chown(&name("x"), &name("y"), None, None).unwrap_err(),
        "unknown user: x"
    );
    assert_eq!(
        apply_chown(&None, &name("y"), None, None).unwrap_err(),
        "unknown group: y"
    );
}

// ---------------------------------------------------------------------------
// Starting and serving
// ---------------------------------------------------------------------------

#[test]
fn command_with_nul_byte_is_rejected() {
    let resp = start(
        &words(&["ec\u{0}ho", "hi"]),
        None,
        &EnvMap::new(),
        "/b",
        "0123abcd",
        7,
    )
    .unwrap_err();
    assert_eq!(resp.to_value().get_text("type"), Some("error"));
    assert_eq!(resp.to_value().get_text("code"), Some("bad_request"));
}

#[test]
fn env_with_nul_byte_is_rejected() {
    let mut env = EnvMap::new();
    env.insert("FOO", "ba\u{0}r");
    let resp = start(&words(&["true"]), None, &env, "/b", "0123abcd", 7).unwrap_err();
    assert_eq!(resp.to_value().get_text("type"), Some("error"));
    assert_eq!(resp.to_value().get_text("code"), Some("bad_request"));
}

#[test]
fn a_started_process_records_its_state_first() {
    let plan = start(
        &words(&["sh", "-c", "exit 7"]),
        Some("/tmp"),
        &EnvMap::new(),
        "/b",
        "0123abcd",
        7,
    )
    .unwrap();
    assert_eq!(plan.id, "0123abcd");
    assert_eq!(plan.dir.dir, "/b/0123abcd");
    assert_eq!(plan.files[0].path, "/b/0123abcd/status");
    assert_eq!(plan.files[0].content, "running");
    assert!(plan
        .files
        .iter()
        .any(|f| f.path == "/b/0123abcd/started" && f.content == "7"));
}

#[test]
fn a_runner_records_how_its_command_ended() {
    for (status, text) in [(7 << 8, "exited(7)"), (15, "signaled(15)"), (0x7f, "exited(unknown)")] {
        let acts = runner_step(RunnerEvent::Ended { status });
        match acts.as_slice() {
            [RunnerAct::Status(s), RunnerAct::StampEnd, RunnerAct::StopHolder, RunnerAct::Exit(0)] => {
                assert_eq!(s, text)
            }
            other => panic!("unexpected acts {other:?}"),
        }
    }
    assert_eq!(parent_step(77).as_deref(), Some("77"));
    assert_eq!(parent_step(0), None);
}

#[test]
fn a_runner_is_recorded_before_the_parent_is_told() {
    let acts = runner_step(RunnerEvent::Forked { command: 77 });
    assert!(matches!(
        acts.as_slice(),
        [
            RunnerAct::RecordRunner,
            RunnerAct::RecordHolder,
            RunnerAct::Report(77)
        ]
    ));
    for event in [
        RunnerEvent::SetupFailed,
        RunnerEvent::HolderFailed,
        RunnerEvent::CommandFailed,
    ] {
        let acts = runner_step(event);
        assert!(matches!(&acts[0], RunnerAct::Status(s) if s == "exited(127)"));
        assert!(matches!(acts[1], RunnerAct::Report(0)));
        assert!(matches!(acts.last(), Some(RunnerAct::Exit(1))));
    }
    // Seen from outside: the command is gone, the runner is not.
    let mut f = files(Some("running"));
    f.pid = Some("77".to_string());
    f.runner_pid = Some("76".to_string());
    f.runner_alive = true;
    let (state, heal) = resolve_state(&ProcessDir::new("/b", "0123abcd"), &f);
    assert_eq!(state, Some(ProcessState::Running));
    assert!(!heal);
}

#[test]
fn ping_reports_identity_without_creating_state() {
    // Answered before any state directory is looked at.
    assert!(matches!(serve(Ok(Request::Ping)), Route::Ping));
    match ping_response(identity(&None, None)) {
        Response::Ping {
            version, protocol, ..
        } => {
            assert_eq!(version, "0.4.0");
            assert_eq!(protocol, 2);
        }
        other => panic!("expected a ping, got {other:?}"),
    }
    match version_response() {
        Response::Version { protocol, .. } => assert_eq!(protocol, PROTOCOL_VERSION),
        other => panic!("expected a version, got {other:?}"),
    }
}

#[test]
fn a_request_is_routed_by_what_it_needs() {
    match serve(Err("expected value".to_string())) {
        Route::Reply(resp) => assert_eq!(code(&resp), Some(ErrorCode::BadRequest)),
        other => panic!("expected a rejection, got {other:?}"),
    }
    assert!(matches!(
        serve(Ok(Request::Write {
            id: "0123abcd".to_string()
        })),
        Route::Managed {
            body: BodyUse::Whole,
            ..
        }
    ));
    assert!(matches!(
        serve(Ok(Request::Get {
            path: "/f".to_string()
        })),
        Route::Get { .. }
    ));
}

#[test]
fn a_request_arrives_as_it_was_sent() {
    let body = [0u8, 1, 2, 0xff, 0xfe, b'\n', b'x'];
    let sent = serve_request("{\"action\":\"write\",\"id\":\"0123abcd\"}", &body);
    let (line, rest) = read_request_line(&sent);
    assert_eq!(line, b"{\"action\":\"write\",\"id\":\"0123abcd\"}");
    assert_eq!(rest, body);
}

#[test]
fn a_download_declares_size_and_mode() {
    let meta = FileMeta {
        is_file: true,
        len: 9,
        mode: 0o100644,
    };
    match serve_get("/f", Ok(meta)) {
        Ok(Response::GetStream { size, mode }) => {
            assert_eq!(size, 9);
            assert_eq!(mode, "0644");
        }
        other => panic!("expected a stream, got {other:?}"),
    }
    let dir = FileMeta {
        is_file: false,
        len: 0,
        mode: 0o40755,
    };
    assert!(serve_get("/d", Ok(dir)).is_err());
    let unstatable = serve_get("/f", Err(io(IoKind::Other, "EIO"))).unwrap_err();
    assert_eq!(text(&unstatable), "stat /f: EIO");
    let gone = get_open_error("/f", &io(IoKind::NotFound, "ENOENT"));
    assert_eq!(code(&gone), Some(ErrorCode::NotFound));
    assert!(get_succeeded(9, Some(9), true, Some(9)));
    assert!(!get_succeeded(9, Some(9), true, Some(10)));
    assert!(!get_succeeded(9, Some(8), true, Some(9)));
    assert!(!get_succeeded(9, Some(9), false, Some(9)));
}

// ---------------------------------------------------------------------------
// Whole requests
// ---------------------------------------------------------------------------

fn decode_field(v: &Json, data: &str, encoding: &str) -> Vec<u8> {
    let text = v.get_text(data).unwrap();
    match v.get_text(encoding) {
        Some("base64") => base64_decode(text).unwrap(),
        _ => text.as_bytes().to_vec(),
    }
}

fn read_back(bytes: &[u8]) -> Json {
    let outcome = ReadOutcome::Data {
        bytes: bytes.to_vec(),
        size: bytes.len() as u64,
    };
    read_output("0123abcd", "stdout", None, &outcome).to_value()
}

#[test]
fn run_transports_shell_metacharacters_as_exact_argv() {
    // The payload never touches a shell: the argument is a JSON text in the
    // request and one element of the argv that is executed.
    let hostile = "a; b $(whoami) | c 'q' \"d\" \n tab\there";
    let request = Request::Run {
        command: words(&["printf", "%s", hostile]),
        cwd: None,
        env: EnvMap::new(),
        timeout_ms: None,
        keep_stdin_open: false,
        ephemeral: true,
    };
    match request.to_value().get("command") {
        Some(Json::List(items)) => match &items[2] {
            Json::Text(t) => assert_eq!(t, hostile),
            other => panic!("expected text, got {other:?}"),
        },
        other => panic!("expected a list, got {other:?}"),
    }
    match serve(Ok(request)) {
        Route::Managed {
            request: Request::Run { command, .. },
            ..
        } => {
            assert_eq!(command, ["printf", "%s", hostile]);
            assert!(start(&command, None, &EnvMap::new(), "/b", "0123abcd", 7).is_ok());
        }
        other => panic!("expected a run, got {other:?}"),
    }
    let (resp, _) = run(
        "0123abcd",
        Some(ProcessState::Exited(0)),
        1,
        30_000,
        &stream(hostile.as_bytes()),
        &stream(b""),
        true,
    );
    let value = resp.to_value();
    assert_eq!(value.get_text("type"), Some("completed"));
    assert_eq!(value.get_int("exit_code"), Some(0));
    assert_eq!(value.get_text("stdout"), Some(hostile));
}

#[test]
fn start_reports_missing_command_via_status() {
    let reply = command_fault(&CommandFault::ExecFailed {
        program: "rx-no-such-command-zzz".to_string(),
        errno: 2,
        message: "No such file or directory".to_string(),
    });
    let mut f = files(Some(&reply.status));
    f.exec_error = reply.marker;
    let (state, _) = resolve_state(&ProcessDir::new("/b", "0123abcd"), &f);
    let value = status("0123abcd", state, &status_files()).to_value();
    assert_eq!(value.get_text("state"), Some("exec_failed(command_not_found)"));
    assert!(matches!(value.get("exit_code"), Some(Json::Null)));
}

#[test]
fn run_applies_env_overrides() {
    let env = parse_env(&words(&["RX_MYVAR=hello"])).unwrap();
    let request = Request::Run {
        command: words(&["printenv", "RX_MYVAR"]),
        cwd: None,
        env,
        timeout_ms: None,
        keep_stdin_open: false,
        ephemeral: true,
    };
    let value = request.to_value();
    assert_eq!(
        value.get("env").unwrap().get_text("RX_MYVAR"),
        Some("hello")
    );
    match serve(Ok(request)) {
        Route::Managed {
            request: Request::Run { env, .. },
            ..
        } => {
            assert_eq!(env.len(), 1);
            assert_eq!(env.pair(0), ("RX_MYVAR", "hello"));
        }
        other => panic!("expected a run, got {other:?}"),
    }
    let (resp, _) = run(
        "0123abcd",
        Some(ProcessState::Exited(0)),
        1,
        30_000,
        &stream(b"hello\n"),
        &stream(b""),
        true,
    );
    assert_eq!(resp.to_value().get_text("type"), Some("completed"));
    assert_eq!(resp.to_value().get_text("stdout"), Some("hello\n"));
}

#[test]
fn run_feeds_stdin_body_and_sends_eof() {
    let sent = serve_request("{\"action\":\"run\",\"command\":[\"cat\"]}", b"hello stdin");
    let (_, body) = read_request_line(&sent);
    assert_eq!(body, b"hello stdin");
    assert_eq!(stdin_plan(&body, false), (true, true));
    let (resp, _) = run(
        "0123abcd",
        Some(ProcessState::Exited(0)),
        1,
        30_000,
        &stream(&body),
        &stream(b""),
        true,
    );
    let value = resp.to_value();
    assert_eq!(value.get_text("type"), Some("completed"));
    assert_eq!(value.get_int("exit_code"), Some(0));
    assert_eq!(value.get_text("stdout"), Some("hello stdin"));
}

#[test]
fn run_backgrounds_when_it_outlives_the_timeout() {
    assert!(matches!(
        await_exit_or_timeout(Some(ProcessState::Running), 200, 200),
        Poll::TimedOut
    ));
    let (resp, _) = run("0123abcd", None, 200, 200, &stream(b""), &stream(b""), true);
    let value = resp.to_value();
    assert_eq!(value.get_text("type"), Some("running"));
    let id = value.get_text("id").unwrap();
    assert!(!id.is_empty());

    // The handle is live and can be killed.
    let (target, phase) = kill(id, true, Some("running"), Some(9), Some(10)).unwrap();
    assert_eq!(target, Some(KillTarget::Group(9)));
    assert_eq!(phase, KillPhase::Terminate);
    assert_eq!(killed_response(id).to_value().get_text("type"), Some("killed"));
    let recorded = record_kill_outcome(Some("running"));
    assert_eq!(recorded, Some("exited(killed)"));
    let (state, _) = resolve_state(&ProcessDir::new("/b", id), &files(recorded));
    let value = status(id, state, &status_files()).to_value();
    assert_eq!(value.get_text("state"), Some("exited(killed)"));
}

#[test]
fn start_status_read_roundtrip_via_serve() {
    let acts = runner_step(RunnerEvent::Ended { status: 7 << 8 });
    let recorded = match acts.into_iter().next() {
        Some(RunnerAct::Status(s)) => s,
        other => panic!("expected a status, got {other:?}"),
    };
    let (state, _) = resolve_state(&ProcessDir::new("/b", "0123abcd"), &files(Some(&recorded)));
    let value = status("0123abcd", state, &status_files()).to_value();
    assert_eq!(value.get_text("state"), Some("exited(7)"));
    assert_eq!(value.get_int("exit_code"), Some(7));

    let stdout = read_back(b"out\n");
    assert_eq!(stdout.get_text("type"), Some("output"));
    assert_eq!(stdout.get_text("encoding"), Some("utf8"));
    assert_eq!(decode_field(&stdout, "data", "encoding"), b"out\n");
    assert_eq!(stdout.get_int("size"), Some(4));

    let stderr = read_back(b"err\n");
    assert_eq!(decode_field(&stderr, "data", "encoding"), b"err\n");
}

#[test]
fn write_body_transports_arbitrary_bytes() {
    // Bytes that no shell-argv transport could carry: NUL and high bytes.
    let payload = [0u8, 1, 2, 0xff, 0xfe, b'\n', b'x'];
    let sent = serve_request("{\"action\":\"write\",\"id\":\"0123abcd\"}", &payload);
    let (_, body) = read_request_line(&sent);
    assert_eq!(body, payload);
    let write = write_stdin("0123abcd", true, Some("running"), Ok(body.len())).to_value();
    assert_eq!(write.get_text("type"), Some("written"));
    assert_eq!(write.get_int("bytes"), Some(payload.len() as i64));

    let close = close_stdin("0123abcd", true, Some("running"), true, None);
    assert_eq!(close.to_value().get_text("type"), Some("written"));

    let stdout = read_back(&payload);
    assert_eq!(stdout.get_text("encoding"), Some("base64")); // binary → base64
    assert_eq!(decode_field(&stdout, "data", "encoding"), payload);
}

#[test]
fn large_piped_stdin_is_not_truncated() {
    let input = vec![b'a'; 128 * 1024];
    let mut offered = 0;
    let mut taken: Vec<u8> = Vec::new();
    let mut buf: Vec<u8> = Vec::new();
    let mut step = PipeStep::Read;
    let exit = loop {
        let (at, to, event) = match step {
            PipeStep::Read => {
                let n = (input.len() - offered).min(8192);
                buf = input[offered..offered + n].to_vec();
                offered += n;
                (0, 0, PipeEvent::Read(n))
            }
            PipeStep::Write { from, to: end } => {
                let n = (end - from).min(4096);
                taken.extend_from_slice(&buf[from..from + n]);
                (from, end, PipeEvent::Wrote(n))
            }
            PipeStep::Close { release, exit } => {
                assert!(release);
                break exit;
            }
        };
        step = pipe_stdin(at, to, event, false);
    };
    assert_eq!(exit, 0, "pipe-stdin failed");
    assert_eq!(taken, input);
}

#[test]
fn a_nul_byte_is_refused_before_an_id_is_drawn() {
    let plain = ["echo".to_string()];
    assert!(refuse_start(&plain, Some("/tmp"), &EnvMap::new()).is_none());
    let argument = refuse_start(&["a\0b".to_string()], Some("c\0d"), &EnvMap::new()).unwrap();
    assert_eq!(code(&argument), Some(ErrorCode::BadRequest));
    assert_eq!(text(&argument), "command argument contains a NUL byte");
    let cwd = refuse_start(&plain, Some("c\0d"), &EnvMap::new()).unwrap();
    assert_eq!(text(&cwd), "cwd contains a NUL byte");
    let mut env = EnvMap::new();
    env.insert("K", "v\0");
    let variable = refuse_start(&plain, None, &env).unwrap();
    assert_eq!(text(&variable), "env key or value contains a NUL byte");
}
