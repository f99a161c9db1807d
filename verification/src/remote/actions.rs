//! Actions on managed processes: what they answer, given what was found on
//! disk and in the process table.

use vstd::prelude::*;

use crate::encoding::Encoding;
use crate::error::{labelled, IoError, IoKind, RemExecError};
use crate::number::{decimal, render_u64, signed_decimal};
use crate::process::{
    is_process_id, is_valid_process_id, reason_of, recorded_errno, recorded_number, size_of_stream,
    state_of, ProcessDir, ProcessState,
};
use crate::protocol::{is_error, ErrorCode, ProcessSummary, Response};
use crate::remote::start::ending;
use crate::remote::streams::{read_tail, tail_encoding, tail_text, tail_truncated, Stream};
use crate::text::{as_opt_str, slice_view, string_view, trim, trimmed};

verus! {

/// Per-stream cap under which an ephemeral `run` may delete the process dir.
///
/// Deliberately much smaller than what a `completed` response can carry: an
/// agent's tool-output window typically truncates well before that. Only output
/// small enough to be seen in full may take its directory with it; anything
/// larger keeps it, so it can be paged again instead of re-running the command.
pub const RUN_EPHEMERAL_CAP: u64 = 16384;

/// Default timeout for `run` when the caller doesn't specify one.
pub const RUN_DEFAULT_TIMEOUT_MS: u64 = 30000;

/// Default read limit: 1 MiB.
pub const DEFAULT_READ_LIMIT: u64 = 1048576;

// ---------------------------------------------------------------------------
// Refusals
// ---------------------------------------------------------------------------

/// `r` says that `id` is not a process ID.
pub open spec fn says_invalid(r: Response, id: Seq<char>) -> bool {
    is_error(r, ErrorCode::InvalidProcessId, "invalid process ID: "@ + id, None)
}

/// `r` says that there is no process `id`.
pub open spec fn says_missing(r: Response, id: Seq<char>) -> bool {
    is_error(r, ErrorCode::ProcessNotFound, "process not found: "@ + id, None)
}

/// `r` says that process `id` has exited.
pub open spec fn says_exited(r: Response, id: Seq<char>) -> bool {
    is_error(r, ErrorCode::ProcessExited, "process already exited: "@ + id, None)
}

/// The answer for something that is not a process ID.
pub fn invalid_process_id(id: &str) -> (r: Response)
    ensures
        says_invalid(r, id@),
{
    Response::error_code(
        ErrorCode::InvalidProcessId,
        labelled("invalid process ID: ", id).as_str(),
    )
}

fn process_not_found(id: &str) -> (r: Response)
    ensures
        says_missing(r, id@),
{
    Response::error_code(ErrorCode::ProcessNotFound, labelled("process not found: ", id).as_str())
}

fn process_exited(id: &str) -> (r: Response)
    ensures
        says_exited(r, id@),
{
    Response::error_code(
        ErrorCode::ProcessExited,
        labelled("process already exited: ", id).as_str(),
    )
}

/// A process that takes input or signals: its ID is one, its directory exists,
/// and no end is recorded.
pub open spec fn can_act(id: Seq<char>, exists: bool, status: Option<Seq<char>>) -> bool {
    is_process_id(id) && exists && (status matches Some(s) ==> state_of(trimmed(s)) is Running)
}

/// Input and signals reach a process only where its ID is eight hexadecimal digits,
/// its directory is there, and the status file, where it can be read, says that it
/// is running.
pub proof fn lemma_acts_only_on_the_running(id: Seq<char>, exists: bool, status: Option<Seq<char>>)
    ensures
        can_act(id, exists, status) ==> exists && id.len() == 8 && forall|i: int|
            0 <= i < 8 ==> crate::text::is_hex_digit(#[trigger] id[i]),
        status matches Some(s) ==> trimmed(s) != "running"@ ==> !can_act(id, exists, status),
        is_process_id(id) && exists && status is None ==> can_act(id, exists, status),
        is_process_id(id) && exists && status == Some("running"@) ==> can_act(id, exists, status),
{
    crate::process::lemma_recorded_state(ProcessState::Running);
}

/// `r` says why nothing can be done to process `id` that is not running.
pub open spec fn is_refusal(r: Response, id: Seq<char>, exists: bool) -> bool {
    if !is_process_id(id) {
        says_invalid(r, id)
    } else if !exists {
        says_missing(r, id)
    } else {
        says_exited(r, id)
    }
}

/// A refusal says which of the three it is: no ID, no such process, or a process that
/// has ended. None of them is worth a retry.
pub proof fn lemma_refusal_says_why(r: Response, id: Seq<char>, exists: bool)
    requires
        is_refusal(r, id, exists),
    ensures
        r matches Response::Error { code, retryable, .. } && {
            &&& code == Some(ErrorCode::InvalidProcessId) <==> !is_process_id(id)
            &&& code == Some(ErrorCode::ProcessNotFound) <==> is_process_id(id) && !exists
            &&& code == Some(ErrorCode::ProcessExited) <==> is_process_id(id) && exists
            &&& !retryable
        },
{
}

/// Refuse to act on a process that is not there or has exited. A status that
/// cannot be read refuses nothing.
pub fn refuse_unless_running(id: &str, exists: bool, status: Option<&str>) -> (r: Option<Response>)
    ensures
        r is None <==> can_act(id@, exists, slice_view(status)),
        r matches Some(resp) ==> is_refusal(resp, id@, exists),
{
    if !is_valid_process_id(id) {
        return Some(invalid_process_id(id));
    }
    if !exists {
        return Some(process_not_found(id));
    }
    if let Some(s) = status {
        let state = ProcessState::parse(trim(s).as_str());
        if !matches!(state, ProcessState::Running) {
            return Some(process_exited(id));
        }
    }
    None
}

// ---------------------------------------------------------------------------
// States
// ---------------------------------------------------------------------------

/// Structured (exit_code, signal) from a terminal process state.
pub fn exit_fields(state: &ProcessState) -> (r: (Option<i32>, Option<i32>))
    ensures
        r == exit_of(*state),
{
    match state {
        ProcessState::Exited(code) => (Some(*code), None),
        ProcessState::Signaled(sig) => (None, Some(*sig)),
        _ => (None, None),
    }
}

/// The exit code and the signal of a state.
pub open spec fn exit_of(state: ProcessState) -> (Option<i32>, Option<i32>) {
    match state {
        ProcessState::Exited(code) => (Some(code), None),
        ProcessState::Signaled(sig) => (None, Some(sig)),
        _ => (None, None),
    }
}

/// How a process ended is told by one number at most: an exit code where it exited,
/// a signal where one ended it, and neither where nobody knows.
pub proof fn lemma_end_is_told_by_one_number(state: ProcessState)
    ensures
        state matches ProcessState::Exited(c) ==> exit_of(state).0 == Some(c),
        state matches ProcessState::Signaled(n) ==> exit_of(state).1 == Some(n),
        exit_of(state).0 is Some <==> state is Exited,
        exit_of(state).1 is Some <==> state is Signaled,
{
}

/// What is recorded of a process, and what the process table says.
#[derive(Debug)]
pub struct StateFiles {
    pub status: Option<String>,
    pub exec_error: Option<String>,
    pub pid: Option<String>,
    pub runner_pid: Option<String>,
    /// The recorded command exists.
    pub command_alive: bool,
    /// The recorded runner exists.
    pub runner_alive: bool,
}

/// The state of a process. A recorded exec failure overrides the runner's
/// generic exit; a recorded `running` is believed while no PID is recorded (the
/// process may still be starting), while the command lives, and while the
/// runner lives (it is about to record the real end).
pub open spec fn resolved(f: StateFiles) -> Option<ProcessState> {
    match string_view(f.status) {
        None => None,
        Some(s) => {
            let state = state_of(trimmed(s));
            let pid = recorded_number(string_view(f.pid), u32::MAX as int);
            let runner = recorded_number(string_view(f.runner_pid), u32::MAX as int);
            if state !is Running {
                match recorded_errno(string_view(f.exec_error)) {
                    Some(errno) => Some(ProcessState::ExecFailed(errno as i32)),
                    None => Some(state),
                }
            } else if pid is None && runner is None {
                Some(ProcessState::Running)
            } else if pid is Some && f.command_alive {
                Some(ProcessState::Running)
            } else if runner is Some && f.runner_alive {
                Some(ProcessState::Running)
            } else {
                Some(ProcessState::ExitedUnknown)
            }
        },
    }
}

/// The recorded state is stale: it says running, and nothing runs.
pub open spec fn is_stale(f: StateFiles) -> bool {
    string_view(f.status) matches Some(s) && state_of(trimmed(s)) is Running && resolved(f)
        == Some(ProcessState::ExitedUnknown)
}

/// Read the process state. The second part says that a stale `running` has to be
/// healed: record `exited(unknown)` and the end time.
pub fn resolve_state(pdir: &ProcessDir, files: &StateFiles) -> (r: (Option<ProcessState>, bool))
    ensures
        r.0 == resolved(*files),
        r.1 == is_stale(*files),
{
    let state = match pdir.read_status(as_opt_str(&files.status)) {
        Ok(s) => s,
        Err(_) => {
            return (None, false);
        },
    };
    if !matches!(state, ProcessState::Running) {
        return match pdir.read_exec_error(as_opt_str(&files.exec_error)) {
            Some(errno) => (Some(ProcessState::ExecFailed(errno)), false),
            None => (Some(state), false),
        };
    }
    let pid = pdir.read_pid(as_opt_str(&files.pid));
    let runner = pdir.read_runner_pid(as_opt_str(&files.runner_pid));
    if pid.is_none() && runner.is_none() {
        return (Some(ProcessState::Running), false);
    }
    if pid.is_some() && files.command_alive {
        return (Some(ProcessState::Running), false);
    }
    if runner.is_some() && files.runner_alive {
        return (Some(ProcessState::Running), false);
    }
    (Some(ProcessState::ExitedUnknown), true)
}

/// Healing only ever replaces a recorded `running`: an end that was recorded is
/// never touched, and a process whose command or runner lives is never declared
/// dead.
pub proof fn lemma_healing_is_careful(f: StateFiles)
    ensures
        is_stale(f) ==> (string_view(f.status) matches Some(s) && state_of(trimmed(s)) is Running),
        (f.command_alive && recorded_number(string_view(f.pid), u32::MAX as int) is Some)
            ==> !is_stale(f),
        (f.runner_alive && recorded_number(string_view(f.runner_pid), u32::MAX as int) is Some)
            ==> !is_stale(f),
{
}

/// While its runner lives, a process that is recorded as running is never
/// declared dead, provided that its runner was recorded before its command: the
/// gap between a command's exit and the record of it is bridged by the runner.
pub proof fn lemma_live_runner_is_never_healed(f: StateFiles)
    requires
        recorded_number(string_view(f.pid), u32::MAX as int) is Some ==> recorded_number(
            string_view(f.runner_pid),
            u32::MAX as int,
        ) is Some,
        f.runner_alive,
    ensures
        !is_stale(f),
{
}

/// What the state of a process is, from what is recorded and what lives. A process
/// that is recorded as running is running while its command or its runner lives,
/// and while neither is recorded yet; when both are gone its end is unknown, and
/// no exit code is made up for it. An end that was recorded is the state.
pub proof fn lemma_state_is_what_is_known(f: StateFiles)
    ensures
        resolved(f) is None <==> f.status is None,
        (f.status matches Some(s) && trimmed(s@) == "running"@) ==> {
            let command = recorded_number(string_view(f.pid), u32::MAX as int) is Some;
            let runner = recorded_number(string_view(f.runner_pid), u32::MAX as int) is Some;
            &&& command && f.command_alive ==> resolved(f) == Some(ProcessState::Running)
            &&& runner && f.runner_alive ==> resolved(f) == Some(ProcessState::Running)
            &&& !command && !runner ==> resolved(f) == Some(ProcessState::Running)
            &&& resolved(f) == Some(ProcessState::Running) || resolved(f) == Some(
                ProcessState::ExitedUnknown,
            )
            &&& (command || runner) && !(command && f.command_alive) && !(runner && f.runner_alive)
                ==> resolved(f) == Some(ProcessState::ExitedUnknown)
            &&& is_stale(f) <==> resolved(f) != Some(ProcessState::Running)
        },
        (f.status matches Some(s) && trimmed(s@) != "running"@) ==> {
            &&& resolved(f) != Some(ProcessState::Running)
            &&& !is_stale(f)
            &&& f.exec_error is None ==> resolved(f) == Some(state_of(trimmed(f.status->0@)))
        },
{
}

/// What the runner recorded of a command's end is what is answered ever after.
pub proof fn lemma_recorded_end_is_answered(f: StateFiles, status: i32)
    requires
        string_view(f.status) == Some(ending(status).text()),
        f.exec_error is None,
    ensures
        resolved(f) == Some(ending(status)),
        !is_stale(f),
        ending(status) !is Running,
{
    crate::process::lemma_recorded_state(ending(status));
}

/// A command that never started is told apart from one that exited with 127: the
/// marker of its `errno` decides, and then there is neither exit code nor signal.
pub proof fn lemma_exec_failure_is_told_apart(f: StateFiles, errno: i32)
    requires
        string_view(f.status) == Some(ProcessState::Exited(127).text()),
    ensures
        string_view(f.exec_error) == Some(signed_decimal(errno as int)) ==> resolved(f) == Some(
            ProcessState::ExecFailed(errno),
        ) && exit_of(resolved(f)->0) == (None::<i32>, None::<i32>),
        f.exec_error is None ==> resolved(f) == Some(ProcessState::Exited(127)),
{
    crate::process::lemma_recorded_state(ProcessState::Exited(127));
    crate::process::lemma_recorded_errno(errno);
}

/// What a status answer reads besides the state.
#[derive(Debug)]
pub struct StatusFiles {
    pub cmd: Option<String>,
    pub started: Option<String>,
    pub ended: Option<String>,
    pub stdout_len: Option<u64>,
    pub stderr_len: Option<u64>,
}

/// A recorded number, zero where there is none.
pub open spec fn number_or_zero(n: Option<int>) -> int {
    match n {
        Some(v) => v,
        None => 0,
    }
}

/// The length of a file, zero where there is none.
pub open spec fn len_or_zero(n: Option<u64>) -> u64 {
    match n {
        Some(v) => v,
        None => 0,
    }
}

/// `r` is the status of process `id` in `state`.
pub open spec fn is_status(r: Response, id: Seq<char>, st: ProcessState, f: StatusFiles) -> bool {
    r matches Response::Status {
        id: i,
        state,
        cmd,
        started,
        ended,
        exit_code,
        signal,
        stdout_size,
        stderr_size,
    } && {
        &&& i@ == id
        &&& state@ == st.text()
        &&& cmd@ == (match string_view(f.cmd) {
            Some(s) => trimmed(s),
            None => Seq::empty(),
        })
        &&& started == number_or_zero(recorded_number(string_view(f.started), u64::MAX as int))
        &&& crate::protocol::lengthened(ended) == recorded_number(
            string_view(f.ended),
            u64::MAX as int,
        )
        &&& (exit_code, signal) == exit_of(st)
        &&& stdout_size == len_or_zero(f.stdout_len)
        &&& stderr_size == len_or_zero(f.stderr_len)
    }
}

/// A status tells what is recorded: the text of the state reads back as the state,
/// with its exit code or signal; the times are those that were written down, and
/// the sizes those of the two streams.
pub proof fn lemma_status_tells_what_is_recorded(
    r: Response,
    id: Seq<char>,
    st: ProcessState,
    f: StatusFiles,
    begun: u64,
    over: u64,
)
    requires
        is_status(r, id, st, f),
    ensures
        r matches Response::Status {
            id: i,
            state,
            started,
            ended,
            exit_code,
            signal,
            stdout_size,
            stderr_size,
            ..
        } && {
            &&& i@ == id
            &&& st !is ExecFailed ==> state_of(state@) == st
            &&& exit_code == (match st {
                ProcessState::Exited(c) => Some(c),
                _ => None,
            })
            &&& signal == (match st {
                ProcessState::Signaled(n) => Some(n),
                _ => None,
            })
            &&& string_view(f.started) == Some(decimal(begun as nat)) ==> started == begun
            &&& f.started is None ==> started == 0
            &&& string_view(f.ended) == Some(decimal(over as nat)) ==> ended == Some(over)
            &&& f.ended is None ==> ended is None
            &&& f.stdout_len matches Some(n) ==> stdout_size == n
            &&& f.stderr_len matches Some(n) ==> stderr_size == n
            &&& f.stdout_len is None ==> stdout_size == 0
            &&& f.stderr_len is None ==> stderr_size == 0
        },
        r matches Response::Status { cmd, .. } && (match f.cmd {
            Some(c) => cmd@ == trimmed(c@),
            None => cmd@.len() == 0,
        }),
{
    if st !is ExecFailed {
        crate::process::lemma_state_roundtrip(st);
    }
    crate::process::lemma_recorded_number(begun as nat, u64::MAX as int);
    crate::process::lemma_recorded_number(over as nat, u64::MAX as int);
}

/// `r` answers a status request.
pub open spec fn is_status_answer(
    r: Response,
    id: Seq<char>,
    state: Option<ProcessState>,
    files: StatusFiles,
) -> bool {
    if !is_process_id(id) {
        says_invalid(r, id)
    } else {
        match state {
            Some(st) => is_status(r, id, st, files),
            None => says_missing(r, id),
        }
    }
}

/// A status is told of every process that there is, with its state; what is no ID and
/// what is no process are told apart.
pub proof fn lemma_status_is_answered(
    r: Response,
    id: Seq<char>,
    state: Option<ProcessState>,
    files: StatusFiles,
)
    requires
        is_status_answer(r, id, state, files),
    ensures
        r is Status <==> is_process_id(id) && state is Some,
        r matches Response::Status { id: i, state: text, .. } ==> i@ == id && (state matches Some(st)
            && text@ == st.text()),
        r !is Status ==> (r matches Response::Error { code, .. } && (code == Some(
            ErrorCode::InvalidProcessId,
        ) <==> !is_process_id(id)) && (code == Some(ErrorCode::ProcessNotFound) <==> is_process_id(
            id,
        ))),
{
}

/// Get process status, once its state has been resolved (and healed).
pub fn status(id: &str, state: Option<ProcessState>, files: &StatusFiles) -> (r: Response)
    ensures
        is_status_answer(r, id@, state, *files),
{
    if !is_valid_process_id(id) {
        return invalid_process_id(id);
    }
    let state = match state {
        Some(s) => s,
        None => {
            return process_not_found(id);
        },
    };
    let pdir = ProcessDir { dir: String::new() };
    let (exit_code, signal) = exit_fields(&state);
    Response::Status {
        id: id.to_owned(),
        state: state.render(),
        cmd: pdir.read_cmd(as_opt_str(&files.cmd)),
        started: pdir.read_started(as_opt_str(&files.started)),
        ended: pdir.read_ended(as_opt_str(&files.ended)),
        exit_code,
        signal,
        stdout_size: match files.stdout_len {
            Some(n) => n,
            None => 0,
        },
        stderr_size: match files.stderr_len {
            Some(n) => n,
            None => 0,
        },
    }
}

// ---------------------------------------------------------------------------
// Output
// ---------------------------------------------------------------------------

/// A stream of a process.
pub open spec fn is_stream(stream: Seq<char>) -> bool {
    stream == "stdout"@ || stream == "stderr"@
}

/// The file of a stream of a process.
pub open spec fn stream_file(base: Seq<char>, id: Seq<char>, stream: Seq<char>) -> Seq<char> {
    crate::path::joined_path(crate::path::joined_path(base, id), stream)
}

/// The file of a stream is the entry of that name in the directory of the process;
/// the two streams of a process are two files, and those of two processes are
/// others.
pub proof fn lemma_streams_are_kept_apart(
    base: Seq<char>,
    a: Seq<char>,
    b: Seq<char>,
    x: Seq<char>,
    y: Seq<char>,
)
    requires
        is_process_id(a),
        is_process_id(b),
        is_stream(x),
        is_stream(y),
    ensures
        crate::path::final_component(stream_file(base, a, x)) == Some(x),
        stream_file(base, a, x) == crate::path::joined_path(base, a) + seq!['/'] + x,
        x != y ==> stream_file(base, a, x) != stream_file(base, a, y),
        a != b ==> stream_file(base, a, x) != stream_file(base, b, x),
{
    reveal_strlit("stdout");
    reveal_strlit("stderr");
    assert("stdout"@[3] == 'o' && "stderr"@[3] == 'e');
    assert("stdout"@[0] == 's' && "stderr"@[0] == 's');
    assert forall|i: int| 0 <= i < x.len() implies x[i] != '/' by {
        assert(x[0] == 's' && x[1] == 't' && x[2] == 'd' && (x[3] == 'o' || x[3] == 'e') && (x[4]
            == 'u' || x[4] == 'r') && (x[5] == 't' || x[5] == 'r'));
    }
    assert(!x.contains('/'));
    assert(x.len() == 6 && y.len() == 6);
    assert(y[0] == 's');
    crate::process::lemma_process_id_is_a_name(base, a);
    crate::process::lemma_process_id_is_a_name(base, b);
    let da = crate::path::joined_path(base, a);
    let db = crate::path::joined_path(base, b);
    assert(crate::text::is_hex_digit(a[7]) && crate::text::is_hex_digit(b[7]));
    assert(da.last() == a[7] && db.last() == b[7]);
    crate::path::lemma_joined_name(da, x);
    let p = stream_file(base, a, x);
    assert(p =~= da + seq!['/'] + x);
    if stream_file(base, a, x) == stream_file(base, a, y) {
        assert(x =~= p.skip(da.len() as int + 1));
        assert(y =~= stream_file(base, a, y).skip(da.len() as int + 1));
    }
    if p == stream_file(base, b, x) {
        assert(da.len() == db.len());
        assert(da =~= p.take(da.len() as int));
        assert(db =~= stream_file(base, b, x).take(da.len() as int));
        assert(a =~= da.skip(da.len() - 8));
        assert(b =~= db.skip(db.len() - 8));
    }
}

/// `r` is the file of a stream that may be read, or the refusal.
pub open spec fn is_read_target(
    r: Result<String, Response>,
    id: Seq<char>,
    stream: Seq<char>,
    base: Seq<char>,
) -> bool {
    if !is_process_id(id) {
        r matches Err(resp) && says_invalid(resp, id)
    } else if !is_stream(stream) {
        r matches Err(resp) && is_error(
            resp,
            ErrorCode::BadRequest,
            "invalid stream: "@ + stream,
            None,
        )
    } else {
        r matches Ok(p) && p@ == stream_file(base, id, stream)
    }
}

/// No file is read but those of the two streams of a process: whatever is asked for,
/// the file is one of them, below the base directory.
pub proof fn lemma_only_streams_are_read(
    r: Result<String, Response>,
    id: Seq<char>,
    stream: Seq<char>,
    base: Seq<char>,
)
    requires
        is_read_target(r, id, stream, base),
    ensures
        r matches Ok(p) ==> p@ == crate::path::joined_path(base, id) + seq!['/'] + "stdout"@ || p@
            == crate::path::joined_path(base, id) + seq!['/'] + "stderr"@,
        r matches Ok(p) ==> is_process_id(id) && (stream == "stdout"@ || stream == "stderr"@),
        is_process_id(id) && (stream == "stdout"@ || stream == "stderr"@) ==> r is Ok,
        r matches Err(resp) ==> (resp matches Response::Error { code, .. } && (code == Some(
            ErrorCode::BadRequest,
        ) <==> is_process_id(id))),
{
    if is_process_id(id) && is_stream(stream) {
        lemma_streams_are_kept_apart(base, id, id, stream, stream);
    }
}

/// The file of a stream that may be read, or the refusal.
pub fn read_target(id: &str, stream: &str, base: &str) -> (r: Result<String, Response>)
    ensures
        is_read_target(r, id@, stream@, base@),
{
    if !is_valid_process_id(id) {
        return Err(invalid_process_id(id));
    }
    let pdir = ProcessDir::new(base, id);
    match pdir.stream_path(stream) {
        Some(p) => Ok(p),
        None => Err(
            Response::error_code(
                ErrorCode::BadRequest,
                labelled("invalid stream: ", stream).as_str(),
            ),
        ),
    }
}

/// Where a read begins, and how many bytes it asks for: no more than the limit,
/// no more than the file has left.
pub open spec fn read_span(offset: Option<u64>, limit: Option<u64>, size: u64) -> (u64, u64) {
    let at = len_or_zero(offset);
    let most = match limit {
        Some(n) => n,
        None => DEFAULT_READ_LIMIT,
    };
    let left = if size >= at {
        (size - at) as u64
    } else {
        0
    };
    (at, if most <= left {
        most
    } else {
        left
    })
}

/// Where a read begins, and how many bytes it asks for.
pub fn read_window(offset: Option<u64>, limit: Option<u64>, size: u64) -> (r: (u64, u64))
    ensures
        r == read_span(offset, limit, size),
{
    let at: u64 = match offset {
        Some(n) => n,
        None => 0,
    };
    let most: u64 = match limit {
        Some(n) => n,
        None => DEFAULT_READ_LIMIT,
    };
    let left: u64 = if size >= at {
        size - at
    } else {
        0
    };
    (at, if most <= left {
        most
    } else {
        left
    })
}

/// A read never leaves the file and never exceeds its limit.
pub proof fn lemma_read_span(offset: Option<u64>, limit: Option<u64>, size: u64)
    ensures
        ({
            let (at, n) = read_span(offset, limit, size);
            &&& limit matches Some(l) ==> n <= l
            &&& limit is None ==> n <= DEFAULT_READ_LIMIT
            &&& n > 0 ==> at + n <= size
            &&& at >= size ==> n == 0
        }),
{
}

/// A read is as large as it may be: it begins where it was asked to, and it ends
/// where the limit (1 MiB where none is given) or the file does.
pub proof fn lemma_read_is_maximal(offset: Option<u64>, limit: Option<u64>, size: u64)
    ensures
        ({
            let (at, n) = read_span(offset, limit, size);
            &&& offset matches Some(o) ==> at == o
            &&& offset is None ==> at == 0
            &&& at + n <= size || n == 0
            &&& limit matches Some(l) ==> n == l || at + n == size || (at > size && n == 0)
            &&& limit matches Some(l) ==> n <= l
            &&& limit is None ==> n == 1024 * 1024 || (n < 1024 * 1024 && (at + n == size || (at
                > size && n == 0)))
            &&& at < size && limit != Some(0u64) ==> n > 0
        }),
{
}

/// What is read of a file, one read after the other, each from where the one
/// before it ended, until one is empty.
pub open spec fn read_on(file: Seq<u8>, at: u64, limit: Option<u64>) -> Seq<u8>
    decreases file.len() - at,
{
    let (from, n) = read_span(Some(at), limit, file.len() as u64);
    if n == 0 || from != at || from + n > file.len() {
        Seq::empty()
    } else {
        file.subrange(from as int, from + n) + read_on(file, (from + n) as u64, limit)
    }
}

/// Reading on until nothing comes gives every byte of the file, once and in order.
pub proof fn lemma_reading_on_covers_the_file(file: Seq<u8>, at: u64, limit: Option<u64>)
    requires
        at <= file.len() <= u64::MAX,
        limit != Some(0u64),
    ensures
        read_on(file, at, limit) == file.skip(at as int),
    decreases file.len() - at,
{
    let (from, n) = read_span(Some(at), limit, file.len() as u64);
    if n == 0 {
        assert(file.skip(at as int) =~= Seq::<u8>::empty());
    } else {
        lemma_reading_on_covers_the_file(file, (from + n) as u64, limit);
        assert(file.skip(at as int) =~= file.subrange(from as int, from + n) + file.skip(
            from + n,
        ));
    }
}

/// Output arrives as it was read: the text of an answer, by the encoding that
/// stands beside it, gives back the bytes, with where they begin and how large the
/// stream is.
pub proof fn lemma_output_is_carried(r: Response, bytes: Seq<u8>, at: u64, total: u64)
    requires
        is_output(r, bytes, at, total),
    ensures
        r matches Response::Output { data, encoding, offset, size } && crate::encoding::carried(
            data@,
            encoding,
        ) == Ok::<Seq<u8>, crate::encoding::Fault>(bytes) && offset == at && size == total,
{
    crate::remote::streams::lemma_shown_bytes_are_carried(bytes);
}

/// What came of reading a stream file.
#[derive(Debug)]
pub enum ReadOutcome {
    NotOpened,
    SeekFailed(String),
    ReadFailed(String),
    /// These bytes, of a file of this size.
    Data { bytes: Vec<u8>, size: u64 },
}

/// `r` carries `bytes` from `offset` of a stream of `size` bytes.
pub open spec fn is_output(r: Response, bytes: Seq<u8>, at: u64, total: u64) -> bool {
    r matches Response::Output { data, encoding, offset, size } && data@ == tail_text(bytes)
        && encoding == tail_encoding(bytes) && offset == at && size == total
}

/// The answer with bytes of a stream.
pub fn output_response(bytes: &[u8], offset: u64, size: u64) -> (r: Response)
    ensures
        is_output(r, bytes@, offset, size),
{
    let (data, encoding) = crate::encoding::encode_bytes(bytes);
    Response::Output { data, encoding, offset, size }
}

/// `r` answers a read.
pub open spec fn is_read_answer(
    r: Response,
    id: Seq<char>,
    stream: Seq<char>,
    offset: Option<u64>,
    outcome: ReadOutcome,
) -> bool {
    if !is_process_id(id) {
        says_invalid(r, id)
    } else if !is_stream(stream) {
        is_error(r, ErrorCode::BadRequest, "invalid stream: "@ + stream, None)
    } else {
        match outcome {
            ReadOutcome::NotOpened => says_missing(r, id),
            ReadOutcome::SeekFailed(e) => is_error(
                r,
                ErrorCode::Internal,
                "seek failed: "@ + e@,
                None,
            ),
            ReadOutcome::ReadFailed(e) => is_error(
                r,
                ErrorCode::Internal,
                "read failed: "@ + e@,
                None,
            ),
            ReadOutcome::Data { bytes, size } => is_output(r, bytes@, len_or_zero(offset), size),
        }
    }
}

/// What was read is answered, byte for byte, with the place it stands at and the size
/// of the file, so that the next read goes on behind it; what could not be read is an
/// error, and a file that is not there a process that is not there.
pub proof fn lemma_read_is_answered(
    r: Response,
    id: Seq<char>,
    stream: Seq<char>,
    from: Option<u64>,
    outcome: ReadOutcome,
)
    requires
        is_read_answer(r, id, stream, from, outcome),
    ensures
        r is Output <==> is_process_id(id) && (stream == "stdout"@ || stream == "stderr"@)
            && outcome is Data,
        r matches Response::Output { data, encoding, offset, size } ==> (outcome
            matches ReadOutcome::Data { bytes, size: n } && size == n
            && crate::encoding::carried(data@, encoding) == Ok::<Seq<u8>, crate::encoding::Fault>(
            bytes@,
        )) && (match from {
            Some(at) => offset == at,
            None => offset == 0,
        }),
        r !is Output ==> r is Error,
        is_process_id(id) && is_stream(stream) && outcome is NotOpened ==> (r
            matches Response::Error { code, .. } && code == Some(ErrorCode::ProcessNotFound)),
{
    if is_process_id(id) && is_stream(stream) {
        if let ReadOutcome::Data { bytes, size } = outcome {
            lemma_output_is_carried(r, bytes@, len_or_zero(from), size);
        }
    }
}

/// Read process output (stdout or stderr) with optional byte offset and limit.
pub fn read_output(id: &str, stream: &str, offset: Option<u64>, outcome: &ReadOutcome) -> (r:
    Response)
    ensures
        is_read_answer(r, id@, stream@, offset, *outcome),
{
    match read_target(id, stream, "") {
        Err(resp) => resp,
        Ok(_) => match outcome {
            ReadOutcome::NotOpened => process_not_found(id),
            ReadOutcome::SeekFailed(e) => Response::error_code(
                ErrorCode::Internal,
                labelled("seek failed: ", e.as_str()).as_str(),
            ),
            ReadOutcome::ReadFailed(e) => Response::error_code(
                ErrorCode::Internal,
                labelled("read failed: ", e.as_str()).as_str(),
            ),
            ReadOutcome::Data { bytes, size } => {
                let at: u64 = match offset {
                    Some(n) => n,
                    None => 0,
                };
                output_response(bytes, at, *size)
            },
        },
    }
}

/// `r` answers a request for the size of a stream.
pub open spec fn is_size_answer(
    r: Response,
    id: Seq<char>,
    stream: Seq<char>,
    stdout_len: Option<u64>,
    stderr_len: Option<u64>,
) -> bool {
    if !is_process_id(id) {
        says_invalid(r, id)
    } else {
        r matches Response::Output { data, encoding, offset, size } && data@ == Seq::<char>::empty()
            && encoding == Encoding::Utf8 && offset == 0 && size == size_of_stream(
            stream,
            stdout_len,
            stderr_len,
        )
    }
}

/// The size that is answered is that of the stream's own file, and nothing is read for
/// it.
pub proof fn lemma_size_is_answered(
    r: Response,
    id: Seq<char>,
    stream: Seq<char>,
    stdout_len: Option<u64>,
    stderr_len: Option<u64>,
)
    requires
        is_size_answer(r, id, stream, stdout_len, stderr_len),
    ensures
        is_process_id(id) ==> (r matches Response::Output { data, offset, size, .. } && data@.len()
            == 0 && offset == 0 && {
            &&& stream == "stdout"@ ==> size == (match stdout_len {
                Some(n) => n,
                None => 0,
            })
            &&& stream == "stderr"@ ==> size == (match stderr_len {
                Some(n) => n,
                None => 0,
            })
        }),
        !is_process_id(id) ==> (r matches Response::Error { code, .. } && code == Some(
            ErrorCode::InvalidProcessId,
        )),
{
    crate::process::lemma_stream_sizes(stdout_len, stderr_len);
}

/// Get the byte size of a stream file.
pub fn size(id: &str, stream: &str, stdout_len: Option<u64>, stderr_len: Option<u64>) -> (r:
    Response)
    ensures
        is_size_answer(r, id@, stream@, stdout_len, stderr_len),
{
    if !is_valid_process_id(id) {
        return invalid_process_id(id);
    }
    let pdir = ProcessDir { dir: String::new() };
    let n: u64 = pdir.stream_size(stream, stdout_len, stderr_len);
    Response::Output { data: String::new(), encoding: Encoding::Utf8, offset: 0, size: n }
}

// ---------------------------------------------------------------------------
// Input
// ---------------------------------------------------------------------------

/// `r` answers a write whose FIFO was fed like this.
pub open spec fn is_written(r: Response, fed: Result<usize, IoError>) -> bool {
    match fed {
        Ok(n) => r == (Response::Written { bytes: n }),
        Err(e) => if e.kind is TimedOut {
            is_error(r, ErrorCode::Timeout, "write to stdin timed out: "@ + e.message@, None)
        } else {
            is_error(r, ErrorCode::Internal, "write failed: "@ + e.message@, None)
        },
    }
}

/// `r` answers a write to the stdin of a process.
pub open spec fn is_write_answer(
    r: Response,
    id: Seq<char>,
    exists: bool,
    status: Option<Seq<char>>,
    fed: Result<usize, IoError>,
) -> bool {
    if can_act(id, exists, status) {
        is_written(r, fed)
    } else {
        is_refusal(r, id, exists)
    }
}

/// A write is answered as done only where the process runs and took the bytes, and
/// with as many as it took.
pub proof fn lemma_write_is_answered(
    r: Response,
    id: Seq<char>,
    exists: bool,
    status: Option<Seq<char>>,
    fed: Result<usize, IoError>,
)
    requires
        is_write_answer(r, id, exists, status, fed),
    ensures
        r is Written <==> can_act(id, exists, status) && fed is Ok,
        r matches Response::Written { bytes } ==> fed == Ok::<usize, IoError>(bytes),
        r !is Written ==> r is Error,
        !exists ==> (r matches Response::Error { code, .. } && (code == Some(
            ErrorCode::ProcessNotFound,
        ) || code == Some(ErrorCode::InvalidProcessId))),
        (status matches Some(s) && trimmed(s) != "running"@) ==> r is Error,
{
}

/// The answer to writing bytes to a process's stdin, given what came of feeding
/// its FIFO. A process that does not take input is refused, whatever was fed.
pub fn write_stdin(
    id: &str,
    exists: bool,
    status: Option<&str>,
    fed: Result<usize, IoError>,
) -> (r: Response)
    ensures
        is_write_answer(r, id@, exists, slice_view(status), fed),
{
    if let Some(resp) = refuse_unless_running(id, exists, status) {
        return resp;
    }
    match fed {
        Ok(bytes) => Response::Written { bytes },
        Err(e) => match e.kind {
            IoKind::TimedOut => Response::error_code(
                ErrorCode::Timeout,
                labelled("write to stdin timed out: ", e.message.as_str()).as_str(),
            ),
            _ => Response::error_code(
                ErrorCode::Internal,
                labelled("write failed: ", e.message.as_str()).as_str(),
            ),
        },
    }
}

/// The FIFO's holder has to be killed.
pub open spec fn ends_holder(holder: Option<u32>, alive: bool) -> bool {
    holder is Some && alive
}

/// A holder is killed where there is one that lives, and nothing is signalled where no
/// PID was recorded or it is dead.
pub proof fn lemma_only_a_live_holder_is_killed(holder: Option<u32>, alive: bool, pid: u32)
    ensures
        ends_holder(Some(pid), true),
        !ends_holder(None, alive),
        !ends_holder(holder, false),
{
}

/// Whether the FIFO's holder has to be killed: it is recorded and alive. Killing
/// it closes the last writer, so the command sees EOF.
pub fn kill_stdin_holder(holder: Option<u32>, alive: bool) -> (r: bool)
    ensures
        r == ends_holder(holder, alive),
{
    holder.is_some() && alive
}

/// `r` answers closing the stdin of process `id`: zero bytes written is the EOF
/// mark. Without a holder to kill, the process has exited meanwhile or stdin was
/// closed before.
pub open spec fn is_closed(
    r: Response,
    id: Seq<char>,
    holder_killed: bool,
    state: Option<ProcessState>,
) -> bool {
    if holder_killed {
        r == (Response::Written { bytes: 0 })
    } else if state matches Some(s) && s !is Running {
        says_exited(r, id)
    } else {
        is_error(r, ErrorCode::Internal, "stdin already closed or no holder found"@, None)
    }
}

/// `r` answers closing the stdin of a process.
pub open spec fn is_close_answer(
    r: Response,
    id: Seq<char>,
    exists: bool,
    status: Option<Seq<char>>,
    holder_killed: bool,
    state: Option<ProcessState>,
) -> bool {
    if can_act(id, exists, status) {
        is_closed(r, id, holder_killed, state)
    } else {
        is_refusal(r, id, exists)
    }
}

/// Closing is answered as done, with no bytes, exactly where the process runs and the
/// last writer of its stdin was ended.
pub proof fn lemma_close_is_answered(
    r: Response,
    id: Seq<char>,
    exists: bool,
    status: Option<Seq<char>>,
    holder_killed: bool,
    state: Option<ProcessState>,
)
    requires
        is_close_answer(r, id, exists, status, holder_killed, state),
    ensures
        r is Written <==> can_act(id, exists, status) && holder_killed,
        r matches Response::Written { bytes } ==> bytes == 0,
        r !is Written ==> r is Error,
        can_act(id, exists, status) && !holder_killed && (state matches Some(s) && s
            != ProcessState::Running) ==> (r matches Response::Error { code, .. } && code == Some(
            ErrorCode::ProcessExited,
        )),
{
}

/// The answer to closing a process's stdin, given whether its holder was killed
/// and, where it was not, the state of the process after that.
pub fn close_stdin(
    id: &str,
    exists: bool,
    status: Option<&str>,
    holder_killed: bool,
    state: Option<ProcessState>,
) -> (r: Response)
    ensures
        is_close_answer(r, id@, exists, slice_view(status), holder_killed, state),
{
    if let Some(resp) = refuse_unless_running(id, exists, status) {
        return resp;
    }
    if holder_killed {
        return Response::Written { bytes: 0 };
    }
    if let Some(s) = state {
        if !matches!(s, ProcessState::Running) {
            return process_exited(id);
        }
    }
    Response::error_code(ErrorCode::Internal, "stdin already closed or no holder found")
}

// ---------------------------------------------------------------------------
// Run and wait
// ---------------------------------------------------------------------------

/// A command needs at least a program.
pub fn refuse_empty(command: &[String]) -> (r: Option<Response>)
    ensures
        r is Some <==> command@.len() == 0,
        r matches Some(resp) ==> is_error(
            resp,
            ErrorCode::BadRequest,
            "run: empty command"@,
            None,
        ),
{
    if command.len() == 0 {
        Some(Response::error_code(ErrorCode::BadRequest, "run: empty command"))
    } else {
        None
    }
}

/// `r` is the ID of a run that was started, or the answer where it was not.
pub open spec fn is_run_id(
    r: Result<String, Response>,
    started: Result<Response, RemExecError>,
) -> bool {
    match started {
        Ok(Response::Started { id }) => r == Ok::<String, Response>(id),
        Ok(other) => r == Err::<String, Response>(other),
        Err(e) => r matches Err(resp) && is_error(resp, ErrorCode::Internal, e.text(), None),
    }
}

/// A run goes on only with a process that was started, under its own ID; any other
/// answer to the start is the answer to the run, as it came.
pub proof fn lemma_run_goes_on_with_its_process(
    r: Result<String, Response>,
    started: Result<Response, RemExecError>,
)
    requires
        is_run_id(r, started),
    ensures
        r matches Ok(id) ==> started == Ok::<Response, RemExecError>(Response::Started { id }),
        (started matches Ok(a) && a is Started) ==> r is Ok,
        started matches Ok(a) ==> (a !is Started ==> r == Err::<String, Response>(a)),
        started is Err ==> (r matches Err(resp) && (resp matches Response::Error { code, .. } && code
            == Some(ErrorCode::Internal))),
{
}

/// The ID of a run that was started, or the answer where it was not.
pub fn run_id(started: Result<Response, RemExecError>) -> (r: Result<String, Response>)
    ensures
        is_run_id(r, started),
{
    match started {
        Ok(Response::Started { id }) => Ok(id),
        Ok(other) => Err(other),
        Err(e) => Err(Response::error_code(ErrorCode::Internal, e.message().as_str())),
    }
}

/// What a run does with the command's stdin before it waits: whether it feeds the
/// body, and whether it closes stdin so that commands that read to EOF end.
pub fn stdin_plan(body: &[u8], keep_stdin_open: bool) -> (r: (bool, bool))
    ensures
        r == stdin_of_run(body@, keep_stdin_open),
{
    (body.len() > 0, !keep_stdin_open)
}

/// How long to wait for a process, in milliseconds.
pub open spec fn wait_of(timeout_ms: Option<u64>) -> u64 {
    match timeout_ms {
        Some(t) => t,
        None => RUN_DEFAULT_TIMEOUT_MS,
    }
}

/// What a run does with stdin: whether it feeds the body, whether it closes stdin.
pub open spec fn stdin_of_run(body: Seq<u8>, keep_stdin_open: bool) -> (bool, bool) {
    (body.len() > 0, !keep_stdin_open)
}

/// A run waits as long as it was told to, half a minute where nothing was said;
/// input that was given is fed, and stdin is closed unless it is to stay open.
pub proof fn lemma_run_does_as_it_was_told(
    timeout_ms: Option<u64>,
    body: Seq<u8>,
    keep_stdin_open: bool,
)
    ensures
        timeout_ms matches Some(t) ==> wait_of(timeout_ms) == t,
        timeout_ms is None ==> wait_of(timeout_ms) == 30 * 1000,
        stdin_of_run(body, keep_stdin_open).0 <==> body != Seq::<u8>::empty(),
        stdin_of_run(body, keep_stdin_open).1 <==> !keep_stdin_open,
{
    if body.len() == 0 {
        assert(body =~= Seq::<u8>::empty());
    }
}

/// How long to wait for a process, in milliseconds.
pub fn timeout_or_default(timeout_ms: Option<u64>) -> (r: u64)
    ensures
        r == wait_of(timeout_ms),
{
    match timeout_ms {
        Some(t) => t,
        None => RUN_DEFAULT_TIMEOUT_MS,
    }
}

/// What one look at a process that is waited for means.
#[derive(Debug, Clone, Copy, PartialEq, Eq, Structural)]
pub enum Poll {
    /// It has ended like this.
    Ended(ProcessState),
    /// It has not, and the time is up.
    TimedOut,
    /// It has not; look again in a while.
    Again,
}

/// What one look at a process that is waited for means.
pub open spec fn poll_of(state: Option<ProcessState>, elapsed_ms: u64, timeout_ms: u64) -> Poll {
    if state matches Some(s) && s !is Running {
        Poll::Ended(state->0)
    } else if elapsed_ms >= timeout_ms {
        Poll::TimedOut
    } else {
        Poll::Again
    }
}

/// Waiting ends with the end of the process, whenever that is seen, and with the
/// time that was given, never before: a process that runs is waited for exactly
/// that long, and its end is reported as it is.
pub proof fn lemma_waiting_ends_in_time(
    state: Option<ProcessState>,
    elapsed_ms: u64,
    later: u64,
    timeout_ms: u64,
)
    ensures
        poll_of(state, elapsed_ms, timeout_ms) matches Poll::Ended(s) ==> state == Some(s)
            && s !is Running,
        state matches Some(s) ==> s !is Running ==> poll_of(state, elapsed_ms, timeout_ms)
            == Poll::Ended(s),
        state == Some(ProcessState::Running) || state is None ==> {
            &&& elapsed_ms < timeout_ms ==> poll_of(state, elapsed_ms, timeout_ms) is Again
            &&& elapsed_ms >= timeout_ms ==> poll_of(state, elapsed_ms, timeout_ms) is TimedOut
        },
        poll_of(state, elapsed_ms, timeout_ms) is TimedOut && later >= elapsed_ms ==> poll_of(
            state,
            later,
            timeout_ms,
        ) is TimedOut,
{
}

/// One look at a process that is waited for. An end that is seen counts, even
/// when the time is up.
pub fn await_exit_or_timeout(state: Option<ProcessState>, elapsed_ms: u64, timeout_ms: u64) -> (r:
    Poll)
    ensures
        r == poll_of(state, elapsed_ms, timeout_ms),
{
    if let Some(s) = state {
        if !matches!(s, ProcessState::Running) {
            return Poll::Ended(s);
        }
    }
    if elapsed_ms >= timeout_ms {
        Poll::TimedOut
    } else {
        Poll::Again
    }
}

/// `r` is the handle of a process that outlived its timeout.
pub open spec fn is_running(
    r: Response,
    id: Seq<char>,
    timeout_ms: u64,
    stdout: u64,
    stderr: u64,
) -> bool {
    r matches Response::Running { id: i, reason, stdout_size, stderr_size, hint } && i@ == id
        && reason@ == "still running after "@ + decimal(timeout_ms as nat) + "ms"@ && stdout_size
        == stdout && stderr_size == stderr && hint@ == "backgrounded; wait: rx wait HOST "@ + id
        + " · read: rx stdout HOST "@ + id + " · stop: rx kill HOST "@ + id
}

/// The handle of a process that outlived its timeout.
pub fn running_response(id: &str, timeout_ms: u64, stdout_size: u64, stderr_size: u64) -> (r:
    Response)
    ensures
        is_running(r, id@, timeout_ms, stdout_size, stderr_size),
{
    let mut reason = labelled("still running after ", render_u64(timeout_ms).as_str());
    reason.append("ms");
    let mut hint = labelled("backgrounded; wait: rx wait HOST ", id);
    hint.append(" · read: rx stdout HOST ");
    hint.append(id);
    hint.append(" · stop: rx kill HOST ");
    hint.append(id);
    Response::Running { id: id.to_owned(), reason, stdout_size, stderr_size, hint }
}

/// The wall time in milliseconds between two times in seconds, as far as 64 bits
/// go. Without an end, or with one before the start, it is zero.
pub open spec fn elapsed_ms(started: u64, ended: Option<u64>) -> u64 {
    let end = match ended {
        Some(e) => e,
        None => started,
    };
    if end < started {
        0
    } else if (end - started) * 1000 <= u64::MAX {
        ((end - started) * 1000) as u64
    } else {
        u64::MAX
    }
}

/// A wall time is a thousand times the seconds between start and end, and it never
/// runs backwards.
pub proof fn lemma_wall_time(started: u64, seconds: u64)
    requires
        started + seconds <= u64::MAX,
    ensures
        seconds * 1000 <= u64::MAX ==> elapsed_ms(started, Some((started + seconds) as u64))
            == seconds * 1000,
        elapsed_ms(started, None) == 0,
        forall|e: u64| e < started ==> #[trigger] elapsed_ms(started, Some(e)) == 0,
        forall|e: u64, f: u64|
            e <= f ==> #[trigger] elapsed_ms(started, Some(e)) <= #[trigger] elapsed_ms(
                started,
                Some(f),
            ),
{
}

/// Process wall time from its recorded start and end (second resolution).
pub fn process_duration_ms(started: u64, ended: Option<u64>) -> (r: u64)
    ensures
        r == elapsed_ms(started, ended),
{
    let end: u64 = match ended {
        Some(e) => e,
        None => started,
    };
    let seconds: u64 = if end >= started {
        end - started
    } else {
        0
    };
    if seconds <= 18446744073709551 {
        seconds * 1000
    } else {
        u64::MAX
    }
}

/// Why a command never started, if it did not.
pub open spec fn exec_error_of(state: ProcessState) -> Option<Seq<char>> {
    match state {
        ProcessState::ExecFailed(errno) => Some(reason_of(errno)),
        _ => None,
    }
}

/// `r` reports the end of process `id` with its output.
pub open spec fn is_completed(
    r: Response,
    id: Seq<char>,
    state: ProcessState,
    duration: u64,
    out: Stream,
    err: Stream,
) -> bool {
    r matches Response::Completed {
        id: i,
        exit_code,
        signal,
        exec_error,
        duration_ms,
        stdout,
        stdout_encoding,
        stderr,
        stderr_encoding,
        stdout_size,
        stderr_size,
        stdout_truncated,
        stderr_truncated,
    } && {
        &&& i@ == id
        &&& (exit_code, signal) == exit_of(state)
        &&& string_view(exec_error) == exec_error_of(state)
        &&& duration_ms == duration
        &&& stdout@ == tail_text(out.bytes())
        &&& stdout_encoding == tail_encoding(out.bytes())
        &&& stderr@ == tail_text(err.bytes())
        &&& stderr_encoding == tail_encoding(err.bytes())
        &&& stdout_size == out.size
        &&& stderr_size == err.size
        &&& stdout_truncated == tail_truncated(out)
        &&& stderr_truncated == tail_truncated(err)
    }
}

/// The report of an ended process is about that process and loses none of its
/// output: each stream, by its own encoding, gives back the bytes that were read of
/// it, with the size of its file and a mark where that is more than was read; the
/// exit code or the signal is that of the state, and there is a reason exactly
/// where the command never started.
pub proof fn lemma_report_carries_the_output(
    r: Response,
    id: Seq<char>,
    state: ProcessState,
    duration: u64,
    out: Stream,
    err: Stream,
)
    requires
        is_completed(r, id, state, duration, out, err),
    ensures
        r matches Response::Completed {
            id: i,
            exit_code,
            signal,
            exec_error,
            duration_ms,
            stdout,
            stdout_encoding,
            stderr,
            stderr_encoding,
            stdout_size,
            stderr_size,
            stdout_truncated,
            stderr_truncated,
        } && {
            &&& i@ == id
            &&& crate::encoding::carried(stdout@, stdout_encoding) == Ok::<
                Seq<u8>,
                crate::encoding::Fault,
            >(out.bytes())
            &&& crate::encoding::carried(stderr@, stderr_encoding) == Ok::<
                Seq<u8>,
                crate::encoding::Fault,
            >(err.bytes())
            &&& stdout_size == out.size && stderr_size == err.size
            &&& out.tail is Some ==> (stdout_truncated <==> out.size > 256 * 1024)
            &&& err.tail is Some ==> (stderr_truncated <==> err.size > 256 * 1024)
            &&& exit_code == (match state {
                ProcessState::Exited(c) => Some(c),
                _ => None,
            })
            &&& signal == (match state {
                ProcessState::Signaled(n) => Some(n),
                _ => None,
            })
            &&& exec_error is Some <==> state is ExecFailed
            &&& duration_ms == duration
        },
{
    crate::remote::streams::lemma_shown_bytes_are_carried(out.bytes());
    crate::remote::streams::lemma_shown_bytes_are_carried(err.bytes());
}

/// What a command's end means to a shell: `run` exits with the code that the command
/// exited with, with 128 and the signal that ended it, and with 127 where it never
/// started; a state that nobody knows more of is no failure of ours.
pub proof fn lemma_run_exits_as_the_command_did(
    r: Response,
    id: Seq<char>,
    state: ProcessState,
    duration: u64,
    out: Stream,
    err: Stream,
)
    requires
        is_completed(r, id, state, duration, out, err),
    ensures
        state matches ProcessState::Exited(c) ==> 0 <= c <= 255 ==> crate::cli::exit::run_exit_of(r)
            == c,
        state matches ProcessState::Signaled(n) ==> 1 <= n <= 127 ==> crate::cli::exit::run_exit_of(
            r,
        ) == 128 + n,
        state is ExecFailed ==> crate::cli::exit::run_exit_of(r) == 127,
{
}

/// The report of a process that has ended.
pub fn completed_response(
    id: &str,
    state: &ProcessState,
    duration_ms: u64,
    out: &Stream,
    err: &Stream,
) -> (r: Response)
    ensures
        is_completed(r, id@, *state, duration_ms, *out, *err),
{
    let (exit_code, signal) = exit_fields(state);
    let exec_error: Option<String> = match state {
        ProcessState::ExecFailed(errno) => Some(crate::process::exec_reason(*errno)),
        _ => None,
    };
    let (stdout, stdout_encoding, stdout_size, stdout_truncated) = read_tail(out);
    let (stderr, stderr_encoding, stderr_size, stderr_truncated) = read_tail(err);
    Response::Completed {
        id: id.to_owned(),
        exit_code,
        signal,
        exec_error,
        duration_ms,
        stdout,
        stdout_encoding,
        stderr,
        stderr_encoding,
        stdout_size,
        stderr_size,
        stdout_truncated,
        stderr_truncated,
    }
}

/// The output was small enough to have been seen in full.
pub open spec fn seen_in_full(r: Response) -> bool {
    r matches Response::Completed {
        stdout_truncated,
        stderr_truncated,
        stdout_size,
        stderr_size,
        ..
    } && !stdout_truncated && !stderr_truncated && stdout_size <= RUN_EPHEMERAL_CAP && stderr_size
        <= RUN_EPHEMERAL_CAP
}

/// Whether the process dir is removed after this response: it was asked for,
/// and the output is small enough to have been seen in full. Truncated or larger
/// output keeps its dir for re-paging, and so does a running process.
pub fn maybe_ephemeral_clean(resp: &Response, ephemeral: bool) -> (r: bool)
    ensures
        r == (ephemeral && seen_in_full(*resp)),
{
    if !ephemeral {
        return false;
    }
    match resp {
        Response::Completed {
            stdout_truncated,
            stderr_truncated,
            stdout_size,
            stderr_size,
            ..
        } => {
            if *stdout_truncated || *stderr_truncated {
                return false;
            }
            *stdout_size <= RUN_EPHEMERAL_CAP && *stderr_size <= RUN_EPHEMERAL_CAP
        },
        _ => false,
    }
}

/// The directory of a run is removed with its answer.
pub open spec fn run_removes(
    ephemeral: bool,
    ended: Option<ProcessState>,
    out: Stream,
    err: Stream,
) -> bool {
    ephemeral && ended is Some && !tail_truncated(out) && !tail_truncated(err) && out.size
        <= RUN_EPHEMERAL_CAP && err.size <= RUN_EPHEMERAL_CAP
}

/// Nothing that may still be wanted is removed: not the directory of a process that
/// runs, not one that was to be kept, and not one with more output than 16 KiB in a
/// stream. Any other is removed.
pub proof fn lemma_run_removes_only_what_was_seen(
    ephemeral: bool,
    ended: Option<ProcessState>,
    out: Stream,
    err: Stream,
    r: Response,
)
    ensures
        run_removes(ephemeral, ended, out, err) <==> ephemeral && ended is Some && out.size <= 16
            * 1024 && err.size <= 16 * 1024,
        seen_in_full(r) ==> (r matches Response::Completed {
            stdout_size,
            stderr_size,
            stdout_truncated,
            stderr_truncated,
            ..
        } && stdout_size <= 16 * 1024 && stderr_size <= 16 * 1024 && !stdout_truncated
            && !stderr_truncated),
        (r matches Response::Completed {
            stdout_size,
            stderr_size,
            stdout_truncated,
            stderr_truncated,
            ..
        } && stdout_size <= 16 * 1024 && stderr_size <= 16 * 1024 && !stdout_truncated
            && !stderr_truncated) ==> seen_in_full(r),
{
}

/// `r` tells how a process ended, or that it goes on.
pub open spec fn is_outcome(
    r: Response,
    id: Seq<char>,
    ended: Option<ProcessState>,
    duration_ms: u64,
    timeout_ms: u64,
    out: Stream,
    err: Stream,
) -> bool {
    match ended {
        Some(state) => is_completed(r, id, state, duration_ms, out, err),
        None => is_running(r, id, timeout_ms, out.size, err.size),
    }
}

/// A process that ended is answered with its end and one that goes on with a handle,
/// which names it and tells how much it has written so far on each stream.
pub proof fn lemma_outcome_is_the_end_or_a_handle(
    r: Response,
    id: Seq<char>,
    ended: Option<ProcessState>,
    duration_ms: u64,
    timeout_ms: u64,
    out: Stream,
    err: Stream,
)
    requires
        is_outcome(r, id, ended, duration_ms, timeout_ms, out, err),
    ensures
        r is Completed <==> ended is Some,
        r is Running <==> ended is None,
        r matches Response::Running { id: i, reason, stdout_size, stderr_size, hint } ==> i@ == id
            && stdout_size == out.size && stderr_size == err.size && crate::text::contains_text(
            reason@,
            decimal(timeout_ms as nat),
        ) && crate::text::contains_text(hint@, id),
{
    if ended is None {
        let a = "still running after "@;
        let d = decimal(timeout_ms as nat);
        let reason = a + d + "ms"@;
        assert(reason.subrange(a.len() as int, (a.len() + d.len()) as int) =~= d);
        assert(crate::text::occurs_at(reason, d, a.len() as int));
        let b = "backgrounded; wait: rx wait HOST "@;
        let hint = b + id + " · read: rx stdout HOST "@ + id + " · stop: rx kill HOST "@ + id;
        assert(hint.subrange(b.len() as int, (b.len() + id.len()) as int) =~= id);
        assert(crate::text::occurs_at(hint, id, b.len() as int));
    }
}

/// The answer to a run, and whether its process dir is removed: the end of the
/// command within the timeout, or the handle of a process that goes on detached.
pub fn run(
    id: &str,
    ended: Option<ProcessState>,
    duration_ms: u64,
    timeout_ms: u64,
    out: &Stream,
    err: &Stream,
    ephemeral: bool,
) -> (r: (Response, bool))
    ensures
        is_outcome(r.0, id@, ended, duration_ms, timeout_ms, *out, *err),
        r.1 == run_removes(ephemeral, ended, *out, *err),
{
    match ended {
        Some(state) => {
            let resp = completed_response(id, &state, duration_ms, out, err);
            let remove = maybe_ephemeral_clean(&resp, ephemeral);
            (resp, remove)
        },
        None => {
            let resp = running_response(id, timeout_ms, out.size, err.size);
            (resp, false)
        },
    }
}

/// `r` answers a wait.
pub open spec fn is_wait_answer(
    r: Response,
    id: Seq<char>,
    known: bool,
    ended: Option<ProcessState>,
    duration_ms: u64,
    timeout_ms: u64,
    out: Stream,
    err: Stream,
) -> bool {
    if !is_process_id(id) {
        says_invalid(r, id)
    } else if !known {
        says_missing(r, id)
    } else {
        is_outcome(r, id, ended, duration_ms, timeout_ms, out, err)
    }
}

/// A wait is answered as the run itself would have been, for every process that there
/// is; for any other it says what is missing.
pub proof fn lemma_wait_is_answered_as_a_run(
    r: Response,
    id: Seq<char>,
    known: bool,
    ended: Option<ProcessState>,
    duration_ms: u64,
    timeout_ms: u64,
    out: Stream,
    err: Stream,
)
    requires
        is_wait_answer(r, id, known, ended, duration_ms, timeout_ms, out, err),
    ensures
        is_process_id(id) && known <==> r is Completed || r is Running,
        is_process_id(id) && known ==> is_outcome(
            r,
            id,
            ended,
            duration_ms,
            timeout_ms,
            out,
            err,
        ),
        is_process_id(id) && !known ==> (r matches Response::Error { code, .. } && code == Some(
            ErrorCode::ProcessNotFound,
        )),
        !is_process_id(id) ==> (r matches Response::Error { code, .. } && code == Some(
            ErrorCode::InvalidProcessId,
        )),
{
}

/// The answer to a wait: the same shapes as `run`, so the asynchronous path never
/// needs client-side polling.
pub fn wait(
    id: &str,
    known: bool,
    ended: Option<ProcessState>,
    started_at: u64,
    ended_at: Option<u64>,
    timeout_ms: u64,
    out: &Stream,
    err: &Stream,
) -> (r: Response)
    ensures
        is_wait_answer(
            r,
            id@,
            known,
            ended,
            elapsed_ms(started_at, ended_at),
            timeout_ms,
            *out,
            *err,
        ),
{
    if !is_valid_process_id(id) {
        return invalid_process_id(id);
    }
    if !known {
        return process_not_found(id);
    }
    match ended {
        Some(state) => {
            let ms: u64 = process_duration_ms(started_at, ended_at);
            completed_response(id, &state, ms, out, err)
        },
        None => running_response(id, timeout_ms, out.size, err.size),
    }
}

// ---------------------------------------------------------------------------
// Kill
// ---------------------------------------------------------------------------

/// What a kill records over a state.
pub open spec fn kill_record(current: ProcessState) -> Option<Seq<char>> {
    match current {
        ProcessState::Running => Some(ProcessState::ExitedKilled.text()),
        _ => None,
    }
}

/// A kill never rewrites an end that was recorded, and a process that it left
/// recorded as running reads as killed from then on, no longer as running.
pub proof fn lemma_kill_keeps_a_recorded_end(current: ProcessState)
    ensures
        current !is Running ==> kill_record(current) is None,
        current is Running ==> (kill_record(current) matches Some(text) && state_of(trimmed(text))
            == ProcessState::ExitedKilled),
{
    crate::process::lemma_recorded_state(ProcessState::ExitedKilled);
}

/// Decide what status a kill should record once its signals have landed.
///
/// The signals hit the runner too. If it won that race and recorded the truth,
/// that is never replaced with the generic `exited(killed)`; only a status that
/// still says `running` is, because then nobody else will record anything.
pub fn finalize_kill_status(current: &ProcessState) -> (r: Option<&'static str>)
    ensures
        *current is Running ==> (r matches Some(s) && s@ == ProcessState::ExitedKilled.text()),
        *current !is Running ==> r is None,
        r is Some <==> kill_record(*current) is Some,
        r matches Some(s) ==> kill_record(*current) == Some(s@),
{
    match current {
        ProcessState::Running => Some("exited(killed)"),
        _ => None,
    }
}

/// The state that a kill finds after its signals.
pub open spec fn state_left(status: Option<Seq<char>>) -> ProcessState {
    match status {
        Some(s) => state_of(trimmed(s)),
        None => ProcessState::Running,
    }
}

/// After a kill the process is recorded as ended, one way or the other: as it ended by
/// itself where that was written down in time, else as killed.
pub proof fn lemma_killed_process_has_ended(status: Option<Seq<char>>, state: ProcessState)
    requires
        state !is ExecFailed,
    ensures
        kill_record(state_left(status)) is None ==> (status matches Some(s) && state_of(trimmed(s))
            != ProcessState::Running),
        kill_record(state_left(status)) matches Some(text) ==> state_of(trimmed(text))
            == ProcessState::ExitedKilled,
        state !is Running ==> kill_record(state_left(Some(state.text()))) is None,
        kill_record(state_left(None)) is Some,
        kill_record(state_left(Some("running"@))) is Some,
{
    crate::process::lemma_recorded_state(state);
    crate::process::lemma_recorded_state(ProcessState::Running);
    lemma_kill_keeps_a_recorded_end(state_left(status));
}

/// What a kill records, given the status file as it is after the signals.
/// Nothing readable there counts as still running.
pub fn record_kill_outcome(status: Option<&str>) -> (r: Option<&'static str>)
    ensures
        slice_view(r) == kill_record(state_left(slice_view(status))),
{
    let current = match status {
        Some(s) => ProcessState::parse(trim(s).as_str()),
        None => ProcessState::Running,
    };
    finalize_kill_status(&current)
}

/// What a kill signals.
#[derive(Debug, Clone, Copy, PartialEq, Eq, Structural)]
pub enum KillTarget {
    /// The process group of the runner: the command and the holder are in it.
    Group(u32),
    /// The command alone.
    Process(u32),
}

/// What a kill signals: the runner's group where the runner is known, else the
/// command, else nothing.
pub open spec fn target_of(runner: Option<u32>, command: Option<u32>) -> Option<KillTarget> {
    match (runner, command) {
        (Some(r), _) => Some(KillTarget::Group(r)),
        (None, Some(c)) => Some(KillTarget::Process(c)),
        (None, None) => None,
    }
}

/// What a kill wants done next.
#[derive(Debug, Clone, Copy, PartialEq, Eq, Structural)]
pub enum KillPhase {
    /// Send SIGTERM to the target.
    Terminate,
    /// Wait 200 ms for a graceful exit.
    Grace,
    /// See whether the command is still alive.
    Check,
    /// Send SIGKILL to the target.
    Force,
    /// Wait 50 ms for the runner to record the end.
    Settle,
    /// Record the outcome and answer.
    Record,
}

/// What came of the last phase.
#[derive(Debug, Clone, Copy, PartialEq, Eq, Structural)]
pub enum KillEvent {
    /// A signal was sent, or could not be.
    Sent(bool),
    /// The wait is over.
    Slept,
    /// Whether the command is alive.
    Alive(bool),
}

/// The event is one that the phase waits for.
pub open spec fn kill_fits(phase: KillPhase, event: KillEvent) -> bool {
    match phase {
        KillPhase::Terminate | KillPhase::Force => event is Sent,
        KillPhase::Grace | KillPhase::Settle => event is Slept,
        KillPhase::Check => event is Alive,
        KillPhase::Record => false,
    }
}

/// The phase after an event.
pub open spec fn kill_next(phase: KillPhase, event: KillEvent, command: Option<u32>) -> KillPhase {
    match (phase, event) {
        (KillPhase::Terminate, KillEvent::Sent(true)) => KillPhase::Grace,
        (KillPhase::Grace, KillEvent::Slept) => KillPhase::Check,
        (KillPhase::Check, KillEvent::Alive(true)) => if command is Some {
            KillPhase::Force
        } else {
            KillPhase::Record
        },
        (KillPhase::Force, KillEvent::Sent(_)) => KillPhase::Settle,
        _ => KillPhase::Record,
    }
}

/// How a kill begins: with SIGTERM where there is something to signal.
pub open spec fn first_phase(target: Option<KillTarget>) -> KillPhase {
    match target {
        Some(_) => KillPhase::Terminate,
        None => KillPhase::Record,
    }
}

/// How a kill begins: refused, or with its target and first phase. With nothing
/// to signal, the outcome is recorded at once.
pub fn kill(
    id: &str,
    exists: bool,
    status: Option<&str>,
    runner: Option<u32>,
    command: Option<u32>,
) -> (r: Result<(Option<KillTarget>, KillPhase), Response>)
    ensures
        r is Ok <==> can_act(id@, exists, slice_view(status)),
        r matches Ok(k) ==> k.0 == target_of(runner, command) && k.1 == first_phase(k.0),
        r matches Err(resp) ==> is_refusal(resp, id@, exists),
{
    if let Some(resp) = refuse_unless_running(id, exists, status) {
        return Err(resp);
    }
    match (runner, command) {
        (Some(r), _) => Ok((Some(KillTarget::Group(r)), KillPhase::Terminate)),
        (None, Some(c)) => Ok((Some(KillTarget::Process(c)), KillPhase::Terminate)),
        (None, None) => Ok((None, KillPhase::Record)),
    }
}

/// One step of a kill: SIGTERM, a short grace, SIGKILL if that was not enough.
pub fn kill_step(phase: KillPhase, event: KillEvent, command: Option<u32>) -> (r: KillPhase)
    requires
        kill_fits(phase, event),
    ensures
        r == kill_next(phase, event, command),
{
    match (phase, event) {
        (KillPhase::Terminate, KillEvent::Sent(sent)) => if sent {
            KillPhase::Grace
        } else {
            KillPhase::Record
        },
        (KillPhase::Grace, KillEvent::Slept) => KillPhase::Check,
        (KillPhase::Check, KillEvent::Alive(alive)) => if alive && command.is_some() {
            KillPhase::Force
        } else {
            KillPhase::Record
        },
        (KillPhase::Force, KillEvent::Sent(_)) => KillPhase::Settle,
        _ => KillPhase::Record,
    }
}

/// SIGKILL is sent only after a grace period that the command survived, and
/// every kill ends by recording its outcome.
pub proof fn lemma_kill_escalates(phase: KillPhase, event: KillEvent, command: Option<u32>)
    requires
        kill_fits(phase, event),
    ensures
        kill_next(phase, event, command) is Force ==> phase is Check && event == KillEvent::Alive(
            true,
        ) && command is Some,
        kill_next(phase, event, command) is Check ==> phase is Grace,
        kill_rank(kill_next(phase, event, command)) < kill_rank(phase),
{
}

/// A kill takes its course: it signals the whole group of the runner where the
/// runner is known, else the command; it gives a command that took the first signal
/// time to end, and a command that is still alive after that is killed for good.
pub proof fn lemma_kill_takes_its_course(runner: Option<u32>, command: Option<u32>)
    ensures
        runner matches Some(p) ==> target_of(runner, command) == Some(KillTarget::Group(p)),
        runner is None ==> (command matches Some(p) ==> target_of(runner, command) == Some(
            KillTarget::Process(p),
        )),
        target_of(runner, command) is None <==> runner is None && command is None,
        target_of(runner, command) is Some ==> first_phase(target_of(runner, command))
            is Terminate,
        target_of(runner, command) is None ==> first_phase(target_of(runner, command)) is Record,
        kill_next(KillPhase::Terminate, KillEvent::Sent(true), command) is Grace,
        kill_next(KillPhase::Terminate, KillEvent::Sent(false), command) is Record,
        kill_next(KillPhase::Grace, KillEvent::Slept, command) is Check,
        command is Some ==> kill_next(KillPhase::Check, KillEvent::Alive(true), command) is Force,
        kill_next(KillPhase::Check, KillEvent::Alive(false), command) is Record,
        forall|sent: bool| #[trigger]
            kill_next(KillPhase::Force, KillEvent::Sent(sent), command) is Settle,
        kill_next(KillPhase::Settle, KillEvent::Slept, command) is Record,
{
}

/// How many phases are left at most.
pub open spec fn kill_rank(phase: KillPhase) -> nat {
    match phase {
        KillPhase::Terminate => 5,
        KillPhase::Grace => 4,
        KillPhase::Check => 3,
        KillPhase::Force => 2,
        KillPhase::Settle => 1,
        KillPhase::Record => 0,
    }
}

/// The answer to a kill.
pub fn killed_response(id: &str) -> (r: Response)
    ensures
        r matches Response::Killed { id: i } && i@ == id@,
{
    Response::Killed { id: id.to_owned() }
}

// ---------------------------------------------------------------------------
// List and clean
// ---------------------------------------------------------------------------

/// An entry of the base directory.
#[derive(Debug)]
pub struct BaseEntry {
    pub name: String,
    pub is_dir: bool,
    /// It holds a status file.
    pub has_status: bool,
    /// Its state, resolved; only read where the entry is a managed process.
    pub state: Option<ProcessState>,
    /// Its command line.
    pub cmd: String,
}

/// The entry is a managed process, not a stray file or a foreign directory.
pub open spec fn is_managed(e: BaseEntry) -> bool {
    e.is_dir && is_process_id(e.name@) && e.has_status
}

/// What a list shows of an entry.
pub open spec fn shown(e: BaseEntry) -> (Seq<char>, Seq<char>, Seq<char>) {
    (
        e.name@,
        match e.state {
            Some(s) => s.text(),
            None => "unknown"@,
        },
        e.cmd@,
    )
}

/// The managed processes among the entries, in their order.
pub open spec fn listed(entries: Seq<BaseEntry>) -> Seq<(Seq<char>, Seq<char>, Seq<char>)>
    decreases entries.len(),
{
    if entries.len() == 0 {
        Seq::empty()
    } else if is_managed(entries.last()) {
        listed(entries.drop_last()).push(shown(entries.last()))
    } else {
        listed(entries.drop_last())
    }
}

/// The summaries as text.
pub open spec fn summary_views(v: Seq<ProcessSummary>) -> Seq<(Seq<char>, Seq<char>, Seq<char>)> {
    Seq::new(v.len(), |i: int| (v[i].id@, v[i].state@, v[i].cmd@))
}

fn entry_is_managed(e: &BaseEntry) -> (r: bool)
    ensures
        r == is_managed(*e),
{
    e.is_dir && is_valid_process_id(e.name.as_str()) && e.has_status
}

/// List all managed processes.
pub fn list(entries: &Vec<BaseEntry>) -> (r: Response)
    ensures
        r matches Response::List { processes } && summary_views(processes@) == listed(entries@),
{
    let mut processes: Vec<ProcessSummary> = Vec::new();
    let mut i: usize = 0;
    assert(entries@.take(0) =~= Seq::<BaseEntry>::empty());
    assert(summary_views(processes@) =~= listed(entries@.take(0)));
    while i < entries.len()
        invariant
            i <= entries@.len(),
            summary_views(processes@) == listed(entries@.take(i as int)),
        decreases entries@.len() - i,
    {
        let e = &entries[i];
        proof {
            assert(entries@.take(i + 1).drop_last() =~= entries@.take(i as int));
        }
        if entry_is_managed(e) {
            let state: String = match &e.state {
                Some(s) => s.render(),
                None => "unknown".to_owned(),
            };
            let ghost before = processes@;
            processes.push(
                ProcessSummary { id: e.name.clone(), state, cmd: e.cmd.clone() },
            );
            assert(summary_views(processes@) =~= summary_views(before).push(
                shown(entries@[i as int]),
            ));
        }
        i += 1;
    }
    assert(entries@.take(i as int) =~= entries@);
    Response::List { processes }
}

/// The entry is a managed process that has ended.
pub open spec fn is_removable(e: BaseEntry) -> bool {
    is_managed(e) && (e.state matches Some(s) && s !is Running)
}

/// The managed processes among the entries that have ended, in their order.
pub open spec fn removable(entries: Seq<BaseEntry>) -> Seq<Seq<char>>
    decreases entries.len(),
{
    if entries.len() == 0 {
        Seq::empty()
    } else if is_removable(entries.last()) {
        removable(entries.drop_last()).push(entries.last().name@)
    } else {
        removable(entries.drop_last())
    }
}

/// Clean up exited processes: the answer names the directories to remove.
pub fn clean(entries: &Vec<BaseEntry>) -> (r: Response)
    ensures
        r matches Response::Cleaned { removed } && crate::text::views(removed@) == removable(
            entries@,
        ),
{
    let mut removed: Vec<String> = Vec::new();
    let mut i: usize = 0;
    assert(entries@.take(0) =~= Seq::<BaseEntry>::empty());
    assert(crate::text::views(removed@) =~= removable(entries@.take(0)));
    while i < entries.len()
        invariant
            i <= entries@.len(),
            crate::text::views(removed@) == removable(entries@.take(i as int)),
        decreases entries@.len() - i,
    {
        let e = &entries[i];
        proof {
            assert(entries@.take(i + 1).drop_last() =~= entries@.take(i as int));
        }
        let ended = match &e.state {
            Some(s) => !matches!(s, ProcessState::Running),
            None => false,
        };
        if entry_is_managed(e) && ended {
            crate::ssh::push_arg(&mut removed, e.name.as_str());
        }
        i += 1;
    }
    assert(entries@.take(i as int) =~= entries@);
    Response::Cleaned { removed }
}

/// Cleaning names only ended processes: every name is a process ID, and it is
/// that of an entry whose process is not running.
pub proof fn lemma_clean_spares_the_running(entries: Seq<BaseEntry>)
    ensures
        forall|k: int|
            0 <= k < removable(entries).len() ==> is_process_id(#[trigger] removable(entries)[k])
                && exists|i: int|
                0 <= i < entries.len() && is_removable(#[trigger] entries[i]) && entries[i].name@
                    == removable(entries)[k],
    decreases entries.len(),
{
    if entries.len() > 0 {
        let front = entries.drop_last();
        lemma_clean_spares_the_running(front);
        assert forall|k: int| 0 <= k < removable(entries).len() implies is_process_id(
            #[trigger] removable(entries)[k],
        ) && exists|i: int|
            0 <= i < entries.len() && is_removable(#[trigger] entries[i]) && entries[i].name@
                == removable(entries)[k] by {
            if k < removable(front).len() {
                assert(removable(entries)[k] == removable(front)[k]);
                let i = choose|i: int|
                    0 <= i < front.len() && is_removable(#[trigger] front[i]) && front[i].name@
                        == removable(front)[k];
                assert(entries[i] == front[i]);
            } else {
                let i = entries.len() - 1;
                assert(is_removable(entries[i]));
            }
        }
    }
}

/// The row of a list is about this entry: a process directory, under its own name,
/// with its own state where that is known, and its own command line.
pub open spec fn tells_of(row: (Seq<char>, Seq<char>, Seq<char>), e: BaseEntry) -> bool {
    &&& e.is_dir && e.has_status && is_process_id(e.name@)
    &&& row.0 == e.name@
    &&& e.state matches Some(st) ==> row.1 == st.text()
    &&& e.state is None ==> row.1 == "unknown"@
    &&& row.2 == e.cmd@
}

/// The entry is a process directory, and its process is known to have ended.
pub open spec fn has_ended(e: BaseEntry) -> bool {
    &&& e.is_dir && e.has_status && is_process_id(e.name@)
    &&& e.state matches Some(st) && st != ProcessState::Running
}

/// The name is that of this entry, a process directory whose process has ended.
pub open spec fn is_left_by(name: Seq<char>, e: BaseEntry) -> bool {
    has_ended(e) && e.name@ == name
}

/// A list shows every managed process and nothing else: the directories that are
/// named by an ID and hold a status, each with its own state and command line.
pub proof fn lemma_list_shows_every_process(entries: Seq<BaseEntry>)
    ensures
        forall|i: int|
            0 <= i < entries.len() && (#[trigger] entries[i]).is_dir && entries[i].has_status
                && is_process_id(entries[i].name@) ==> exists|k: int|
                0 <= k < listed(entries).len() && tells_of(#[trigger] listed(entries)[k], entries[i]),
        forall|k: int|
            0 <= k < listed(entries).len() ==> exists|i: int|
                0 <= i < entries.len() && tells_of(#[trigger] listed(entries)[k], #[trigger] entries[i]),
        listed(entries).len() <= entries.len(),
    decreases entries.len(),
{
    if entries.len() > 0 {
        let front = entries.drop_last();
        let n = entries.len() - 1;
        lemma_list_shows_every_process(front);
        let all = listed(entries);
        assert forall|i: int|
            0 <= i < entries.len() && (#[trigger] entries[i]).is_dir && entries[i].has_status
                && is_process_id(entries[i].name@) implies exists|k: int|
            0 <= k < all.len() && tells_of(#[trigger] all[k], entries[i]) by {
            if i < n {
                assert(front[i] == entries[i]);
                let k = choose|k: int|
                    0 <= k < listed(front).len() && tells_of(
                        #[trigger] listed(front)[k],
                        front[i],
                    );
                assert(all[k] == listed(front)[k]);
            } else {
                assert(tells_of(all[all.len() - 1], entries[i]));
            }
        }
        assert forall|k: int| 0 <= k < all.len() implies exists|i: int|
            0 <= i < entries.len() && tells_of(#[trigger] all[k], #[trigger] entries[i]) by {
            if k < listed(front).len() {
                assert(all[k] == listed(front)[k]);
                let i = choose|i: int|
                    0 <= i < front.len() && tells_of(listed(front)[k], #[trigger] front[i]);
                assert(tells_of(all[k], entries[i]));
            } else {
                assert(tells_of(all[k], entries[n]));
            }
        }
    }
}

/// Cleaning leaves no ended process behind: the name of every managed directory
/// whose process has ended is there, and that of a running one, or of one whose
/// state cannot be told, is not.
pub proof fn lemma_clean_takes_every_ended_process(entries: Seq<BaseEntry>)
    ensures
        forall|i: int|
            0 <= i < entries.len() && has_ended(#[trigger] entries[i]) ==> removable(
                entries,
            ).contains(entries[i].name@),
        forall|k: int|
            0 <= k < removable(entries).len() ==> exists|i: int|
                0 <= i < entries.len() && is_left_by(
                    #[trigger] removable(entries)[k],
                    #[trigger] entries[i],
                ),
    decreases entries.len(),
{
    if entries.len() > 0 {
        let front = entries.drop_last();
        let n = entries.len() - 1;
        lemma_clean_takes_every_ended_process(front);
        let all = removable(entries);
        assert forall|i: int|
            0 <= i < entries.len() && has_ended(#[trigger] entries[i]) implies all.contains(
            entries[i].name@,
        ) by {
            if i < n {
                assert(front[i] == entries[i]);
                let k = choose|k: int|
                    0 <= k < removable(front).len() && removable(front)[k] == entries[i].name@;
                assert(all[k] == entries[i].name@);
            } else {
                assert(all.last() == entries[i].name@);
            }
        }
        assert forall|k: int| 0 <= k < all.len() implies exists|i: int|
            0 <= i < entries.len() && is_left_by(#[trigger] all[k], #[trigger] entries[i]) by {
            if k < removable(front).len() {
                assert(all[k] == removable(front)[k]);
                let i = choose|i: int|
                    0 <= i < front.len() && is_left_by(removable(front)[k], #[trigger] front[i]);
                assert(is_left_by(all[k], entries[i]));
            } else {
                assert(is_left_by(all[k], entries[n]));
            }
        }
    }
}

/// What is said of a write and of closing stdin: the number of bytes that were fed,
/// zero for the end of input; and a failure is told by its kind.
pub proof fn lemma_input_is_answered(
    r: Response,
    fed: Result<usize, IoError>,
    id: Seq<char>,
    state: Option<ProcessState>,
    closed: Response,
)
    ensures
        is_written(r, fed) ==> (match fed {
            Ok(n) => r matches Response::Written { bytes } && bytes == n,
            Err(e) => r matches Response::Error { code, .. } && (code == Some(ErrorCode::Timeout)
                <==> e.kind is TimedOut) && (code == Some(ErrorCode::Internal) <==> e.kind
                !is TimedOut),
        }),
        is_closed(closed, id, true, state) ==> (closed matches Response::Written { bytes } && bytes
            == 0),
        is_closed(closed, id, false, state) ==> closed is Error,
        is_closed(closed, id, false, state) && (state matches Some(s) && s != ProcessState::Running)
            ==> (closed matches Response::Error { code, .. } && code == Some(
            ErrorCode::ProcessExited,
        )),
{
}

} // verus!
