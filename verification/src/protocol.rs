//! The wire protocol: requests, responses, and the codes callers branch on.

use vstd::prelude::*;

pub use crate::encoding::Encoding;
use crate::env::{env_fields, EnvMap};
use crate::error::{IoError, IoKind};
use crate::json::{
    fields_model, int_or_null, list_model, opt_int_field, opt_text_field, push_field, push_opt_text,
    push_opt_u64, text_or_null, texts, texts_model, Json, JsonModel,
};
use crate::number::{digit_char, parse_octal, plain_number};
use crate::text::{same, strip_prefix, views};

verus! {

/// Wire protocol version. Bump when request or response shapes change
/// incompatibly.
///
/// Requests and responses are framed JSON over `rxd serve`: stdin carries the
/// request line and an optional raw body, stdout carries one response.
pub const PROTOCOL_VERSION: u32 = 2;

// ---------------------------------------------------------------------------
// Error codes
// ---------------------------------------------------------------------------

/// Machine-branchable error categories. Agents switch on `code` instead of
/// matching on `message`.
#[derive(Debug, Clone, Copy, PartialEq, Eq, Structural)]
pub enum ErrorCode {
    /// Malformed request or unusable arguments.
    BadRequest,
    /// Process ID is not the 8-hex-digit form.
    InvalidProcessId,
    /// No such managed process.
    ProcessNotFound,
    /// Operation needs a running process but it has already exited.
    ProcessExited,
    /// A wait timed out.
    Timeout,
    /// rxd is missing or too old on the remote; deploy resolves it.
    NotDeployed,
    /// An explicit deploy, or a release download, failed.
    DeployFailed,
    /// Architecture or feature not supported.
    Unsupported,
    /// SSH could not reach the host (network, DNS, refused).
    SshUnreachable,
    /// SSH authentication failed.
    SshAuth,
    /// The destination is not a usable SSH host.
    BadHost,
    /// Fewer bytes arrived than the sender announced.
    IncompleteTransfer,
    /// A streamed transfer carried no bytes and that was not asked for.
    EmptyStream,
    /// The file changed while it was being read.
    FileChanged,
    /// A path does not exist.
    NotFound,
    /// Unexpected internal failure.
    Internal,
}

impl ErrorCode {
    /// The identical call could plausibly succeed on a retry.
    pub open spec fn is_retryable(self) -> bool {
        self is NotDeployed || self is SshUnreachable || self is Internal
            || self is IncompleteTransfer || self is FileChanged
    }

    /// The call itself is unusable as written.
    pub open spec fn is_unusable(self) -> bool {
        self is BadRequest || self is InvalidProcessId || self is BadHost
    }

    /// The name of this code on the wire.
    pub open spec fn name(self) -> Seq<char> {
        match self {
            ErrorCode::BadRequest => "bad_request"@,
            ErrorCode::InvalidProcessId => "invalid_process_id"@,
            ErrorCode::ProcessNotFound => "process_not_found"@,
            ErrorCode::ProcessExited => "process_exited"@,
            ErrorCode::Timeout => "timeout"@,
            ErrorCode::NotDeployed => "not_deployed"@,
            ErrorCode::DeployFailed => "deploy_failed"@,
            ErrorCode::Unsupported => "unsupported"@,
            ErrorCode::SshUnreachable => "ssh_unreachable"@,
            ErrorCode::SshAuth => "ssh_auth"@,
            ErrorCode::BadHost => "bad_host"@,
            ErrorCode::IncompleteTransfer => "incomplete_transfer"@,
            ErrorCode::EmptyStream => "empty_stream"@,
            ErrorCode::FileChanged => "file_changed"@,
            ErrorCode::NotFound => "not_found"@,
            ErrorCode::Internal => "internal"@,
        }
    }

    /// Whether retrying the same request could plausibly succeed.
    pub fn retryable(self) -> (r: bool)
        ensures
            r == self.is_retryable(),
    {
        matches!(
            self,
            ErrorCode::NotDeployed | ErrorCode::SshUnreachable | ErrorCode::Internal
                | ErrorCode::IncompleteTransfer | ErrorCode::FileChanged
        )
    }

    /// The exit status of a failure with this code: 2 when the call is unusable
    /// as written, 1 when it was usable and failed.
    pub fn exit_code(self) -> (r: u8)
        ensures
            r == if self.is_unusable() {
                2u8
            } else {
                1u8
            },
    {
        match self {
            ErrorCode::BadRequest | ErrorCode::InvalidProcessId | ErrorCode::BadHost => 2,
            _ => 1,
        }
    }

    /// The name of this code on the wire.
    pub fn as_str(self) -> (r: &'static str)
        ensures
            r@ == self.name(),
    {
        match self {
            ErrorCode::BadRequest => "bad_request",
            ErrorCode::InvalidProcessId => "invalid_process_id",
            ErrorCode::ProcessNotFound => "process_not_found",
            ErrorCode::ProcessExited => "process_exited",
            ErrorCode::Timeout => "timeout",
            ErrorCode::NotDeployed => "not_deployed",
            ErrorCode::DeployFailed => "deploy_failed",
            ErrorCode::Unsupported => "unsupported",
            ErrorCode::SshUnreachable => "ssh_unreachable",
            ErrorCode::SshAuth => "ssh_auth",
            ErrorCode::BadHost => "bad_host",
            ErrorCode::IncompleteTransfer => "incomplete_transfer",
            ErrorCode::EmptyStream => "empty_stream",
            ErrorCode::FileChanged => "file_changed",
            ErrorCode::NotFound => "not_found",
            ErrorCode::Internal => "internal",
        }
    }

    /// The code with this name.
    pub fn from_name(name: &str) -> (r: Option<ErrorCode>)
        ensures
            r matches Some(c) ==> c.name() == name@,
            r is None ==> forall|c: ErrorCode| (#[trigger] c.name()) != name@,
    {
        if same(name, "bad_request") {
            Some(ErrorCode::BadRequest)
        } else if same(name, "invalid_process_id") {
            Some(ErrorCode::InvalidProcessId)
        } else if same(name, "process_not_found") {
            Some(ErrorCode::ProcessNotFound)
        } else if same(name, "process_exited") {
            Some(ErrorCode::ProcessExited)
        } else if same(name, "timeout") {
            Some(ErrorCode::Timeout)
        } else if same(name, "not_deployed") {
            Some(ErrorCode::NotDeployed)
        } else if same(name, "deploy_failed") {
            Some(ErrorCode::DeployFailed)
        } else if same(name, "unsupported") {
            Some(ErrorCode::Unsupported)
        } else if same(name, "ssh_unreachable") {
            Some(ErrorCode::SshUnreachable)
        } else if same(name, "ssh_auth") {
            Some(ErrorCode::SshAuth)
        } else if same(name, "bad_host") {
            Some(ErrorCode::BadHost)
        } else if same(name, "incomplete_transfer") {
            Some(ErrorCode::IncompleteTransfer)
        } else if same(name, "empty_stream") {
            Some(ErrorCode::EmptyStream)
        } else if same(name, "file_changed") {
            Some(ErrorCode::FileChanged)
        } else if same(name, "not_found") {
            Some(ErrorCode::NotFound)
        } else if same(name, "internal") {
            Some(ErrorCode::Internal)
        } else {
            None
        }
    }
}

/// No two codes share a name, so a name says exactly which code it is.
pub proof fn lemma_code_names_differ(a: ErrorCode, b: ErrorCode)
    ensures
        a.name() == b.name() ==> a == b,
{
    reveal_strlit("bad_request");
    reveal_strlit("invalid_process_id");
    reveal_strlit("process_not_found");
    reveal_strlit("process_exited");
    reveal_strlit("timeout");
    reveal_strlit("not_deployed");
    reveal_strlit("deploy_failed");
    reveal_strlit("unsupported");
    reveal_strlit("ssh_unreachable");
    reveal_strlit("ssh_auth");
    reveal_strlit("bad_host");
    reveal_strlit("incomplete_transfer");
    reveal_strlit("empty_stream");
    reveal_strlit("file_changed");
    reveal_strlit("not_found");
    reveal_strlit("internal");
    let x = a.name();
    let y = b.name();
    if x == y {
        assert(x.len() == y.len());
        assert(x[0] == y[0]);
        assert(x[1] == y[1]);
        assert(x[4] == y[4]);
    }
}

/// Nothing is ever both an unusable call and worth retrying: what the caller
/// has to fix does not resolve itself.
pub proof fn lemma_unusable_is_not_retryable(code: ErrorCode)
    ensures
        !(code.is_unusable() && code.is_retryable()),
{
}

/// What may pass by itself is worth a retry: a host that lacks rxd or cannot be reached,
/// a transfer that was cut off, a file that changed, and what nobody expected. What the
/// caller asked for wrongly, what is not there and what has ended stays as it is.
pub proof fn lemma_what_is_worth_a_retry(code: ErrorCode)
    ensures
        match code {
            ErrorCode::NotDeployed | ErrorCode::SshUnreachable | ErrorCode::IncompleteTransfer
            | ErrorCode::FileChanged | ErrorCode::Internal => code.is_retryable(),
            _ => !code.is_retryable(),
        },
        match code {
            ErrorCode::BadRequest | ErrorCode::InvalidProcessId | ErrorCode::BadHost => {
                code.is_unusable()
            },
            _ => !code.is_unusable(),
        },
{
}

/// The code for a failed file operation. A missing path and a forbidden one are
/// the caller's to fix; anything else is unexpected.
pub open spec fn code_of_io(kind: IoKind) -> ErrorCode {
    match kind {
        IoKind::NotFound => ErrorCode::NotFound,
        IoKind::PermissionDenied => ErrorCode::BadRequest,
        _ => ErrorCode::Internal,
    }
}

/// The code for a failed file operation, the same on every path that reports
/// one.
pub fn io_error_code(e: &IoError) -> (r: ErrorCode)
    ensures
        r == code_of_io(e.kind),
{
    match e.kind {
        IoKind::NotFound => ErrorCode::NotFound,
        IoKind::PermissionDenied => ErrorCode::BadRequest,
        _ => ErrorCode::Internal,
    }
}

/// A path the caller has to fix is never reported as worth retrying.
pub proof fn lemma_path_errors_are_not_retryable(kind: IoKind)
    ensures
        kind is NotFound || kind is PermissionDenied ==> !code_of_io(kind).is_retryable(),
{
}

// ---------------------------------------------------------------------------
// File modes
// ---------------------------------------------------------------------------

/// The permission bits of a mode as four octal digits.
pub open spec fn octal_text(mode: int) -> Seq<char> {
    seq![
        digit_char(mode / 512 % 8),
        digit_char(mode / 64 % 8),
        digit_char(mode / 8 % 8),
        digit_char(mode % 8),
    ]
}

/// A mode as the octal string that `--mode` accepts: four digits, permission
/// bits only.
pub fn octal_mode(mode: u32) -> (r: String)
    ensures
        r@ == octal_text(mode as int),
{
    let mut out = String::new();
    out.push(octal_digit(mode / 512 % 8));
    out.push(octal_digit(mode / 64 % 8));
    out.push(octal_digit(mode / 8 % 8));
    out.push(octal_digit(mode % 8));
    assert(out@ =~= octal_text(mode as int));
    out
}

fn octal_digit(d: u32) -> (r: char)
    requires
        d < 8,
    ensures
        r == digit_char(d as int),
{
    let b: u8 = 0x30 + d as u8;
    b as char
}

/// The mode that `s` writes: octal digits, after an optional `0o`.
pub open spec fn mode_of(s: Seq<char>) -> Option<int> {
    let body = if crate::text::has_prefix(s, "0o"@) {
        s.skip(2)
    } else {
        s
    };
    match plain_number(body, 8) {
        Some(n) if n <= u32::MAX => Some(n),
        _ => None,
    }
}

/// A mode is the same with `0o` in front, with leading zeros or without, and a text with
/// anything but octal digits in it is none.
pub proof fn lemma_mode_is_octal(s: Seq<char>, i: int)
    requires
        s.len() > 0,
        !crate::text::has_prefix(s, "0o"@),
    ensures
        mode_of("0o"@ + s) == mode_of(s),
        crate::number::all_digits(s, 8) && crate::number::digits_value(s, 8) <= u32::MAX ==> mode_of(
            s,
        ) == Some(crate::number::digits_value(s, 8)),
        0 <= i < s.len() && !crate::number::is_digit(s[i], 8) ==> mode_of(s) is None,
        crate::number::digits_value(s, 8) > u32::MAX ==> mode_of(s) is None,
        mode_of(Seq::empty()) is None,
{
    reveal_strlit("0o");
    let p = "0o"@ + s;
    assert(p.take(2) =~= "0o"@);
    assert(p.skip(2) =~= s);
    if 0 <= i < s.len() && !crate::number::is_digit(s[i], 8) {
        assert(!crate::number::all_digits(s, 8));
    }
}

/// Parse an octal file mode like `0644`, `644`, or `0o644`.
pub fn parse_octal_mode(s: &str) -> (r: Result<u32, String>)
    ensures
        match mode_of(s@) {
            Some(n) => r matches Ok(m) && m == n,
            None => r matches Err(e) && e@ == "invalid octal mode: "@ + s@,
        },
{
    proof {
        reveal_strlit("0o");
    }
    let parsed = match strip_prefix(s, "0o") {
        Some(rest) => parse_octal(rest.as_str()),
        None => parse_octal(s),
    };
    match parsed {
        Some(m) => Ok(m),
        None => Err(crate::error::labelled("invalid octal mode: ", s)),
    }
}

/// A mode that was written is read back with its permission bits.
pub proof fn lemma_octal_roundtrip(mode: u32)
    ensures
        mode_of(octal_text(mode as int)) == Some(mode as int % 4096),
{
    let m = mode as int;
    let s = octal_text(m);
    reveal_strlit("0o");
    assert(s[1] != 'o');
    if crate::text::has_prefix(s, "0o"@) {
        assert(s.take(2)[1] == "0o"@[1]);
    }
    reveal_with_fuel(crate::number::digits_value, 5);
    let a = s.drop_last();
    let b = a.drop_last();
    let c = b.drop_last();
    assert(c.drop_last() =~= Seq::<char>::empty());
    assert(crate::number::digits_value(c, 8) == m / 512 % 8);
    assert(crate::number::digits_value(b, 8) == m / 512 % 8 * 8 + m / 64 % 8);
    assert(crate::number::digits_value(a, 8) == (m / 512 % 8 * 8 + m / 64 % 8) * 8 + m / 8 % 8);
    assert(crate::number::digits_value(s, 8) == ((m / 512 % 8 * 8 + m / 64 % 8) * 8 + m / 8 % 8)
        * 8 + m % 8);
    assert(mode % 4096 == ((mode / 512 % 8 * 8 + mode / 64 % 8) * 8 + mode / 8 % 8) * 8 + mode % 8)
        by (bit_vector);
}


// ---------------------------------------------------------------------------
// Requests and responses
// ---------------------------------------------------------------------------

/// A request sent to `rxd serve` as a single JSON line on stdin.
///
/// The bytes after the request line (the body) are the accompanying payload:
/// process stdin for `Run`, the bytes to write for `Write`, the file for `Put`.
/// Because the whole request travels through the SSH channel's stdin, no field
/// is ever seen by the remote shell: command arguments and input data are
/// transported exactly, with no escaping.
#[derive(Debug)]
pub enum Request {
    /// Run to completion, blocking up to `timeout_ms`. On timeout the process
    /// keeps running detached and a `Running` handle is returned instead.
    Run {
        command: Vec<String>,
        cwd: Option<String>,
        env: EnvMap,
        timeout_ms: Option<u64>,
        keep_stdin_open: bool,
        ephemeral: bool,
    },
    /// Start a detached process and return its handle immediately.
    Start { command: Vec<String>, cwd: Option<String>, env: EnvMap },
    /// Block until a process exits or `timeout_ms` elapses.
    Wait { id: String, timeout_ms: Option<u64> },
    Status { id: String },
    Read { id: String, stream: String, offset: Option<u64>, limit: Option<u64> },
    /// Write the request body to the process's stdin.
    Write { id: String },
    /// Write the request body to a file at `path`, atomically: stream to a temp
    /// file, apply mode, owner and group, then rename into place. `size`, when
    /// set, is the byte count the body must have.
    Put {
        path: String,
        size: Option<u64>,
        mode: Option<u32>,
        owner: Option<String>,
        group: Option<String>,
    },
    /// Like `Put`, for a body whose length is not known in advance: the body is
    /// framed, and an empty one is refused unless `allow_empty`.
    PutStream {
        path: String,
        mode: Option<u32>,
        owner: Option<String>,
        group: Option<String>,
        allow_empty: bool,
    },
    /// Send the bytes of the file at `path`.
    Get { path: String },
    CloseStdin { id: String },
    Kill { id: String },
    List,
    Clean,
    Version,
    Ping,
}

/// Response from rxd. `follow` streams raw bytes and has no JSON envelope.
#[allow(inconsistent_fields)]
#[derive(Debug)]
pub enum Response {
    Started { id: String },
    /// A process that has ended. `exit_code` is absent when a signal ended it,
    /// `exec_error` is there when the command never started, and a `truncated`
    /// stream is only the tail of a larger file.
    Completed {
        id: String,
        exit_code: Option<i32>,
        signal: Option<i32>,
        exec_error: Option<String>,
        duration_ms: u64,
        stdout: String,
        stdout_encoding: Encoding,
        stderr: String,
        stderr_encoding: Encoding,
        stdout_size: u64,
        stderr_size: u64,
        stdout_truncated: bool,
        stderr_truncated: bool,
    },
    /// A `run` that outlived its timeout and is now detached.
    Running { id: String, reason: String, stdout_size: u64, stderr_size: u64, hint: String },
    Status {
        id: String,
        state: String,
        cmd: String,
        started: u64,
        ended: Option<u64>,
        exit_code: Option<i32>,
        signal: Option<i32>,
        stdout_size: u64,
        stderr_size: u64,
    },
    /// Stream data, encoded per `encoding`, from byte `offset` of `size`.
    Output { data: String, encoding: Encoding, offset: u64, size: u64 },
    Written { bytes: usize },
    Copied { path: String, bytes: u64, mode: Option<String> },
    /// The header of a download: `size` raw bytes follow it.
    GetStream { size: u64, mode: String },
    /// A finished download.
    Got { path: String, bytes: u64, mode: Option<String> },
    Killed { id: String },
    List { processes: Vec<ProcessSummary> },
    Cleaned { removed: Vec<String> },
    Version { version: String, protocol: u32 },
    Ping {
        version: String,
        protocol: u32,
        arch: String,
        os: String,
        kernel: String,
        hostname: String,
        distro_id: Option<String>,
        distro_version: Option<String>,
    },
    Error { message: String, code: Option<ErrorCode>, retryable: bool, hint: Option<String> },
}

/// One line of a process list.
#[derive(Debug)]
pub struct ProcessSummary {
    pub id: String,
    pub state: String,
    pub cmd: String,
}

/// Request from the CLI to the local daemon over its Unix socket. The daemon
/// forwards to the remote over the same transport; payload bytes travel
/// base64-encoded so the socket stays plain JSON.
#[derive(Debug)]
pub enum DaemonRequest {
    Run {
        host: String,
        command: Vec<String>,
        cwd: Option<String>,
        env: EnvMap,
        timeout_ms: Option<u64>,
        stdin_b64: Option<String>,
        keep_stdin_open: bool,
        ephemeral: bool,
    },
    Start { host: String, command: Vec<String>, cwd: Option<String>, env: EnvMap },
    Wait { host: String, id: String, timeout_ms: Option<u64> },
    Status { host: String, id: String },
    Stdout { host: String, id: String, offset: Option<u64>, limit: Option<u64> },
    Stderr { host: String, id: String, offset: Option<u64>, limit: Option<u64> },
    Write { host: String, id: String, data_b64: String },
    CloseStdin { host: String, id: String },
    Kill { host: String, id: String },
    List { host: String },
    Clean { host: String },
    Deploy { host: String },
    DaemonStatus,
    DaemonStop,
}

/// Response from the local daemon to the CLI.
#[derive(Debug)]
pub enum DaemonResponse {
    /// The daemon handled the request; `data` is what it answers.
    Answer { data: Json },
    Error { message: String },
}

// ---------------------------------------------------------------------------
// Error responses
// ---------------------------------------------------------------------------

/// `r` is the error `code` with this message and hint; whether it is worth
/// retrying follows from the code.
pub open spec fn is_error(
    r: Response,
    code: ErrorCode,
    message: Seq<char>,
    hint: Option<Seq<char>>,
) -> bool {
    r matches Response::Error { message: m, code: c, retryable: t, hint: h } && m@ == message && c
        == Some(code) && t == code.is_retryable() && (match h {
        Some(x) => hint == Some(x@),
        None => hint is None,
    })
}

/// An error says its code, its message and its hint as they were given, and is worth a
/// retry exactly where its code is.
pub proof fn lemma_error_says_what_it_is(
    r: Response,
    code: ErrorCode,
    message: Seq<char>,
    hint: Option<Seq<char>>,
)
    requires
        is_error(r, code, message, hint),
    ensures
        r matches Response::Error { code: c, message: m, retryable, hint: h } && c == Some(code) && m@
            == message && (retryable <==> code.is_retryable()) && crate::text::string_view(h) == hint,
{
}

impl Response {
    /// An error nothing better is known of: its code is `internal`, so that a
    /// caller that branches on `code` always finds one.
    pub fn error(msg: &str) -> (r: Self)
        ensures
            is_error(r, ErrorCode::Internal, msg@, None),
    {
        Self::error_code(ErrorCode::Internal, msg)
    }

    /// A typed error response; `retryable` is derived from the code.
    pub fn error_code(code: ErrorCode, msg: &str) -> (r: Self)
        ensures
            is_error(r, code, msg@, None),
    {
        Response::Error {
            message: msg.to_owned(),
            code: Some(code),
            retryable: code.retryable(),
            hint: None,
        }
    }

    /// Attach an actionable hint to an error response; any other response stays
    /// as it is.
    pub fn with_hint(self, hint: &str) -> (r: Self)
        ensures
            self matches Response::Error { message, code, retryable, hint: _ } ==> (r
                matches Response::Error { message: m, code: c, retryable: t, hint: h } && m == message
                && c == code && t == retryable && (h matches Some(x) && x@ == hint@)),
            self !is Error ==> r == self,
    {
        match self {
            Response::Error { message, code, retryable, hint: _ } => Response::Error {
                message,
                code,
                retryable,
                hint: Some(hint.to_owned()),
            },
            other => other,
        }
    }
}

/// A typed error with a hint.
pub fn error_with_hint(code: ErrorCode, msg: &str, hint: &str) -> (r: Response)
    ensures
        is_error(r, code, msg@, Some(hint@)),
{
    Response::error_code(code, msg).with_hint(hint)
}

// ---------------------------------------------------------------------------
// The JSON form
// ---------------------------------------------------------------------------

/// An optional 32-bit number as an integer.
pub open spec fn widened(n: Option<i32>) -> Option<int> {
    match n {
        Some(v) => Some(v as int),
        None => None,
    }
}

/// An optional 64-bit number as an integer.
pub open spec fn lengthened(n: Option<u64>) -> Option<int> {
    match n {
        Some(v) => Some(v as int),
        None => None,
    }
}

/// An optional 32-bit number in 64 bits.
pub open spec fn opt_u64(n: Option<u32>) -> Option<u64> {
    match n {
        Some(v) => Some(v as u64),
        None => None,
    }
}

fn wide(n: &Option<u32>) -> (r: Option<u64>)
    ensures
        r == opt_u64(*n),
{
    match n {
        Some(v) => Some(*v as u64),
        None => None,
    }
}

/// The environment, written only where it is not empty.
pub open spec fn opt_env_field(env: EnvMap) -> Seq<(Seq<char>, JsonModel)> {
    if env.pairs().len() == 0 {
        Seq::empty()
    } else {
        seq![("env"@, JsonModel::Object(env_fields(env.pairs())))]
    }
}

fn push_opt_env(fields: &mut Vec<(String, Json)>, env: &EnvMap)
    ensures
        fields_model(final(fields)@) == fields_model(old(fields)@) + opt_env_field(*env),
{
    if env.len() > 0 {
        push_field(fields, "env", env.to_value());
    }
    assert(fields_model(fields@) =~= fields_model(old(fields)@) + opt_env_field(*env));
}

/// Fields that begin with one text field.
fn tagged(tag: &str, name: &str) -> (r: Vec<(String, Json)>)
    ensures
        fields_model(r@) == seq![(tag@, JsonModel::Text(name@))],
{
    let mut fields: Vec<(String, Json)> = Vec::new();
    push_field(&mut fields, tag, Json::text(name));
    assert(fields_model(fields@) =~= seq![(tag@, JsonModel::Text(name@))]);
    fields
}

/// One process of a list.
pub open spec fn summary_model(p: ProcessSummary) -> JsonModel {
    JsonModel::Object(
        seq![
            ("id"@, JsonModel::Text(p.id@)),
            ("state"@, JsonModel::Text(p.state@)),
            ("cmd"@, JsonModel::Text(p.cmd@)),
        ],
    )
}

/// The processes of a list.
pub open spec fn summaries_model(v: Seq<ProcessSummary>) -> Seq<JsonModel> {
    Seq::new(v.len(), |i: int| summary_model(v[i]))
}

fn summaries(v: &Vec<ProcessSummary>) -> (r: Json)
    ensures
        r.model() == JsonModel::List(summaries_model(v@)),
{
    let mut items: Vec<Json> = Vec::new();
    let mut i: usize = 0;
    assert(list_model(items@) =~= summaries_model(v@).take(0));
    while i < v.len()
        invariant
            i <= v@.len(),
            list_model(items@) == summaries_model(v@).take(i as int),
        decreases v@.len() - i,
    {
        let mut fields = tagged("id", v[i].id.as_str());
        push_field(&mut fields, "state", Json::text(v[i].state.as_str()));
        push_field(&mut fields, "cmd", Json::text(v[i].cmd.as_str()));
        assert(fields_model(fields@) =~= summary_model(v@[i as int])->Object_0);
        crate::json::push_item(&mut items, Json::object(fields));
        i += 1;
        assert(list_model(items@) =~= summaries_model(v@).take(i as int));
    }
    assert(summaries_model(v@).take(i as int) =~= summaries_model(v@));
    Json::list(items)
}

/// The code that an error answers with: `internal` where none was given.
pub open spec fn answered_code(code: Option<ErrorCode>) -> ErrorCode {
    match code {
        Some(c) => c,
        None => ErrorCode::Internal,
    }
}

/// An error answers with the code that it was given, and with one in any case.
pub proof fn lemma_given_code_is_answered(code: ErrorCode)
    ensures
        answered_code(Some(code)) == code,
        answered_code(None) == ErrorCode::Internal,
{
}

impl Request {
    /// The fields of this request on the wire.
    pub open spec fn fields(self) -> Seq<(Seq<char>, JsonModel)> {
        match self {
            Request::Run {
                command,
                cwd,
                env,
                timeout_ms,
                keep_stdin_open,
                ephemeral,
            } => seq![
                ("action"@, JsonModel::Text("run"@)),
                ("command"@, texts_model(views(command@))),
            ] + opt_text_field("cwd"@, cwd) + opt_env_field(env) + seq![
                ("timeout_ms"@, int_or_null(lengthened(timeout_ms))),
                ("keep_stdin_open"@, JsonModel::Bool(keep_stdin_open)),
                ("ephemeral"@, JsonModel::Bool(ephemeral)),
            ],
            Request::Start { command, cwd, env } => seq![
                ("action"@, JsonModel::Text("start"@)),
                ("command"@, texts_model(views(command@))),
            ] + opt_text_field("cwd"@, cwd) + opt_env_field(env),
            Request::Wait { id, timeout_ms } => seq![
                ("action"@, JsonModel::Text("wait"@)),
                ("id"@, JsonModel::Text(id@)),
                ("timeout_ms"@, int_or_null(lengthened(timeout_ms))),
            ],
            Request::Status { id } => seq![
                ("action"@, JsonModel::Text("status"@)),
                ("id"@, JsonModel::Text(id@)),
            ],
            Request::Read { id, stream, offset, limit } => seq![
                ("action"@, JsonModel::Text("read"@)),
                ("id"@, JsonModel::Text(id@)),
                ("stream"@, JsonModel::Text(stream@)),
                ("offset"@, int_or_null(lengthened(offset))),
                ("limit"@, int_or_null(lengthened(limit))),
            ],
            Request::Write { id } => seq![
                ("action"@, JsonModel::Text("write"@)),
                ("id"@, JsonModel::Text(id@)),
            ],
            Request::Put { path, size, mode, owner, group } => seq![
                ("action"@, JsonModel::Text("put"@)),
                ("path"@, JsonModel::Text(path@)),
            ] + opt_int_field("size"@, size) + opt_int_field("mode"@, opt_u64(mode)) + opt_text_field(
                "owner"@,
                owner,
            ) + opt_text_field("group"@, group),
            Request::PutStream {
                path,
                mode,
                owner,
                group,
                allow_empty,
            } => seq![
                ("action"@, JsonModel::Text("put_stream"@)),
                ("path"@, JsonModel::Text(path@)),
            ] + opt_int_field("mode"@, opt_u64(mode)) + opt_text_field("owner"@, owner) + opt_text_field(
                "group"@,
                group,
            ) + seq![
                ("allow_empty"@, JsonModel::Bool(allow_empty)),
            ],
            Request::Get { path } => seq![
                ("action"@, JsonModel::Text("get"@)),
                ("path"@, JsonModel::Text(path@)),
            ],
            Request::CloseStdin { id } => seq![
                ("action"@, JsonModel::Text("close_stdin"@)),
                ("id"@, JsonModel::Text(id@)),
            ],
            Request::Kill { id } => seq![
                ("action"@, JsonModel::Text("kill"@)),
                ("id"@, JsonModel::Text(id@)),
            ],
            Request::List => seq![("action"@, JsonModel::Text("list"@))],
            Request::Clean => seq![("action"@, JsonModel::Text("clean"@))],
            Request::Version => seq![("action"@, JsonModel::Text("version"@))],
            Request::Ping => seq![("action"@, JsonModel::Text("ping"@))],
        }
    }

    #[verifier::rlimit(60)]
    #[verifier::spinoff_prover]
    fn to_fields(&self) -> (r: Vec<(String, Json)>)
        ensures
            fields_model(r@) =~= self.fields(),
    {
        match self {
            Request::Run { command, cwd, env, timeout_ms, keep_stdin_open, ephemeral } => {
                let mut fields = tagged("action", "run");
                push_field(&mut fields, "command", texts(command));
                push_opt_text(&mut fields, "cwd", cwd);
                push_opt_env(&mut fields, env);
                push_field(&mut fields, "timeout_ms", Json::opt_u64(timeout_ms));
                push_field(&mut fields, "keep_stdin_open", Json::Bool(*keep_stdin_open));
                push_field(&mut fields, "ephemeral", Json::Bool(*ephemeral));
                fields
            },
            Request::Start { command, cwd, env } => {
                let mut fields = tagged("action", "start");
                push_field(&mut fields, "command", texts(command));
                push_opt_text(&mut fields, "cwd", cwd);
                push_opt_env(&mut fields, env);
                fields
            },
            Request::Wait { id, timeout_ms } => {
                let mut fields = tagged("action", "wait");
                push_field(&mut fields, "id", Json::text(id.as_str()));
                push_field(&mut fields, "timeout_ms", Json::opt_u64(timeout_ms));
                fields
            },
            Request::Status { id } => {
                let mut fields = tagged("action", "status");
                push_field(&mut fields, "id", Json::text(id.as_str()));
                fields
            },
            Request::Read { id, stream, offset, limit } => {
                let mut fields = tagged("action", "read");
                push_field(&mut fields, "id", Json::text(id.as_str()));
                push_field(&mut fields, "stream", Json::text(stream.as_str()));
                push_field(&mut fields, "offset", Json::opt_u64(offset));
                push_field(&mut fields, "limit", Json::opt_u64(limit));
                fields
            },
            Request::Write { id } => {
                let mut fields = tagged("action", "write");
                push_field(&mut fields, "id", Json::text(id.as_str()));
                fields
            },
            Request::Put { path, size, mode, owner, group } => {
                let mut fields = tagged("action", "put");
                push_field(&mut fields, "path", Json::text(path.as_str()));
                push_opt_u64(&mut fields, "size", size);
                push_opt_u64(&mut fields, "mode", &wide(mode));
                push_opt_text(&mut fields, "owner", owner);
                push_opt_text(&mut fields, "group", group);
                fields
            },
            Request::PutStream { path, mode, owner, group, allow_empty } => {
                let mut fields = tagged("action", "put_stream");
                push_field(&mut fields, "path", Json::text(path.as_str()));
                push_opt_u64(&mut fields, "mode", &wide(mode));
                push_opt_text(&mut fields, "owner", owner);
                push_opt_text(&mut fields, "group", group);
                push_field(&mut fields, "allow_empty", Json::Bool(*allow_empty));
                fields
            },
            Request::Get { path } => {
                let mut fields = tagged("action", "get");
                push_field(&mut fields, "path", Json::text(path.as_str()));
                fields
            },
            Request::CloseStdin { id } => {
                let mut fields = tagged("action", "close_stdin");
                push_field(&mut fields, "id", Json::text(id.as_str()));
                fields
            },
            Request::Kill { id } => {
                let mut fields = tagged("action", "kill");
                push_field(&mut fields, "id", Json::text(id.as_str()));
                fields
            },
            Request::List => {
                let mut fields = tagged("action", "list");
                fields
            },
            Request::Clean => {
                let mut fields = tagged("action", "clean");
                fields
            },
            Request::Version => {
                let mut fields = tagged("action", "version");
                fields
            },
            Request::Ping => {
                let mut fields = tagged("action", "ping");
                fields
            },
        }
    }

    /// This request as a JSON value.
    pub fn to_value(&self) -> (r: Json)
        ensures
            r.model() == JsonModel::Object(self.fields()),
    {
        let fields = self.to_fields();
        Json::object(fields)
    }
}

impl Response {
    /// The fields of this response on the wire.
    pub open spec fn fields(self) -> Seq<(Seq<char>, JsonModel)> {
        match self {
            Response::Started { id } => seq![
                ("type"@, JsonModel::Text("started"@)),
                ("id"@, JsonModel::Text(id@)),
            ],
            Response::Completed {
                id,
                exit_code,
                signal,
                exec_error,
                duration_ms,
                stdout,
                stdout_encoding,
                stderr,
                stderr_encoding,
                stdout_size,
                stderr_size,
                stdout_truncated,
                stderr_truncated,
            } => seq![
                ("type"@, JsonModel::Text("completed"@)),
                ("id"@, JsonModel::Text(id@)),
                ("exit_code"@, int_or_null(widened(exit_code))),
                ("signal"@, int_or_null(widened(signal))),
            ] + opt_text_field("exec_error"@, exec_error) + seq![
                ("duration_ms"@, JsonModel::Int(duration_ms as int)),
                ("stdout"@, JsonModel::Text(stdout@)),
                ("stdout_encoding"@, JsonModel::Text(stdout_encoding.name())),
                ("stderr"@, JsonModel::Text(stderr@)),
                ("stderr_encoding"@, JsonModel::Text(stderr_encoding.name())),
                ("stdout_size"@, JsonModel::Int(stdout_size as int)),
                ("stderr_size"@, JsonModel::Int(stderr_size as int)),
                ("stdout_truncated"@, JsonModel::Bool(stdout_truncated)),
                ("stderr_truncated"@, JsonModel::Bool(stderr_truncated)),
            ],
            Response::Running {
                id,
                reason,
                stdout_size,
                stderr_size,
                hint,
            } => seq![
                ("type"@, JsonModel::Text("running"@)),
                ("id"@, JsonModel::Text(id@)),
                ("reason"@, JsonModel::Text(reason@)),
                ("stdout_size"@, JsonModel::Int(stdout_size as int)),
                ("stderr_size"@, JsonModel::Int(stderr_size as int)),
                ("hint"@, JsonModel::Text(hint@)),
            ],
            Response::Status {
                id,
                state,
                cmd,
                started,
                ended,
                exit_code,
                signal,
                stdout_size,
                stderr_size,
            } => seq![
                ("type"@, JsonModel::Text("status"@)),
                ("id"@, JsonModel::Text(id@)),
                ("state"@, JsonModel::Text(state@)),
                ("cmd"@, JsonModel::Text(cmd@)),
                ("started"@, JsonModel::Int(started as int)),
                ("ended"@, int_or_null(lengthened(ended))),
                ("exit_code"@, int_or_null(widened(exit_code))),
                ("signal"@, int_or_null(widened(signal))),
                ("stdout_size"@, JsonModel::Int(stdout_size as int)),
                ("stderr_size"@, JsonModel::Int(stderr_size as int)),
            ],
            Response::Output { data, encoding, offset, size } => seq![
                ("type"@, JsonModel::Text("output"@)),
                ("data"@, JsonModel::Text(data@)),
                ("encoding"@, JsonModel::Text(encoding.name())),
                ("offset"@, JsonModel::Int(offset as int)),
                ("size"@, JsonModel::Int(size as int)),
            ],
            Response::Written { bytes } => seq![
                ("type"@, JsonModel::Text("written"@)),
                ("bytes"@, JsonModel::Int(bytes as int)),
            ],
            Response::Copied { path, bytes, mode } => seq![
                ("type"@, JsonModel::Text("copied"@)),
                ("path"@, JsonModel::Text(path@)),
                ("bytes"@, JsonModel::Int(bytes as int)),
            ] + opt_text_field("mode"@, mode),
            Response::GetStream { size, mode } => seq![
                ("type"@, JsonModel::Text("get_stream"@)),
                ("size"@, JsonModel::Int(size as int)),
                ("mode"@, JsonModel::Text(mode@)),
            ],
            Response::Got { path, bytes, mode } => seq![
                ("type"@, JsonModel::Text("got"@)),
                ("path"@, JsonModel::Text(path@)),
                ("bytes"@, JsonModel::Int(bytes as int)),
            ] + opt_text_field("mode"@, mode),
            Response::Killed { id } => seq![
                ("type"@, JsonModel::Text("killed"@)),
                ("id"@, JsonModel::Text(id@)),
            ],
            Response::List { processes } => seq![
                ("type"@, JsonModel::Text("list"@)),
                ("processes"@, JsonModel::List(summaries_model(processes@))),
            ],
            Response::Cleaned { removed } => seq![
                ("type"@, JsonModel::Text("cleaned"@)),
                ("removed"@, texts_model(views(removed@))),
            ],
            Response::Version { version, protocol } => seq![
                ("type"@, JsonModel::Text("version"@)),
                ("version"@, JsonModel::Text(version@)),
                ("protocol"@, JsonModel::Int(protocol as int)),
            ],
            Response::Ping {
                version,
                protocol,
                arch,
                os,
                kernel,
                hostname,
                distro_id,
                distro_version,
            } => seq![
                ("type"@, JsonModel::Text("ping"@)),
                ("version"@, JsonModel::Text(version@)),
                ("protocol"@, JsonModel::Int(protocol as int)),
                ("arch"@, JsonModel::Text(arch@)),
                ("os"@, JsonModel::Text(os@)),
                ("kernel"@, JsonModel::Text(kernel@)),
                ("hostname"@, JsonModel::Text(hostname@)),
            ] + opt_text_field("distro_id"@, distro_id) + opt_text_field(
                "distro_version"@,
                distro_version,
            ),
            Response::Error { message, code, retryable, hint } => seq![
                ("type"@, JsonModel::Text("error"@)),
                ("message"@, JsonModel::Text(message@)),
                ("code"@, JsonModel::Text(answered_code(code).name())),
                ("retryable"@, JsonModel::Bool(retryable)),
            ] + opt_text_field("hint"@, hint),
        }
    }

    #[verifier::rlimit(60)]
    #[verifier::spinoff_prover]
    pub(crate) fn to_fields(&self) -> (r: Vec<(String, Json)>)
        ensures
            fields_model(r@) =~= self.fields(),
    {
        match self {
            Response::Started { id } => {
                let mut fields = tagged("type", "started");
                push_field(&mut fields, "id", Json::text(id.as_str()));
                fields
            },
            Response::Completed {
                id,
                exit_code,
                signal,
                exec_error,
                duration_ms,
                stdout,
                stdout_encoding,
                stderr,
                stderr_encoding,
                stdout_size,
                stderr_size,
                stdout_truncated,
                stderr_truncated,
            } => {
                let mut fields = tagged("type", "completed");
                push_field(&mut fields, "id", Json::text(id.as_str()));
                push_field(&mut fields, "exit_code", Json::opt_i32(exit_code));
                push_field(&mut fields, "signal", Json::opt_i32(signal));
                push_opt_text(&mut fields, "exec_error", exec_error);
                push_field(&mut fields, "duration_ms", Json::Unsigned(*duration_ms));
                push_field(&mut fields, "stdout", Json::text(stdout.as_str()));
                push_field(&mut fields, "stdout_encoding", Json::text(stdout_encoding.as_str()));
                push_field(&mut fields, "stderr", Json::text(stderr.as_str()));
                push_field(&mut fields, "stderr_encoding", Json::text(stderr_encoding.as_str()));
                push_field(&mut fields, "stdout_size", Json::Unsigned(*stdout_size));
                push_field(&mut fields, "stderr_size", Json::Unsigned(*stderr_size));
                push_field(&mut fields, "stdout_truncated", Json::Bool(*stdout_truncated));
                push_field(&mut fields, "stderr_truncated", Json::Bool(*stderr_truncated));
                fields
            },
            Response::Running { id, reason, stdout_size, stderr_size, hint } => {
                let mut fields = tagged("type", "running");
                push_field(&mut fields, "id", Json::text(id.as_str()));
                push_field(&mut fields, "reason", Json::text(reason.as_str()));
                push_field(&mut fields, "stdout_size", Json::Unsigned(*stdout_size));
                push_field(&mut fields, "stderr_size", Json::Unsigned(*stderr_size));
                push_field(&mut fields, "hint", Json::text(hint.as_str()));
                fields
            },
            Response::Status {
                id,
                state,
                cmd,
                started,
                ended,
                exit_code,
                signal,
                stdout_size,
                stderr_size,
            } => {
                let mut fields = tagged("type", "status");
                push_field(&mut fields, "id", Json::text(id.as_str()));
                push_field(&mut fields, "state", Json::text(state.as_str()));
                push_field(&mut fields, "cmd", Json::text(cmd.as_str()));
                push_field(&mut fields, "started", Json::Unsigned(*started));
                push_field(&mut fields, "ended", Json::opt_u64(ended));
                push_field(&mut fields, "exit_code", Json::opt_i32(exit_code));
                push_field(&mut fields, "signal", Json::opt_i32(signal));
                push_field(&mut fields, "stdout_size", Json::Unsigned(*stdout_size));
                push_field(&mut fields, "stderr_size", Json::Unsigned(*stderr_size));
                fields
            },
            Response::Output { data, encoding, offset, size } => {
                let mut fields = tagged("type", "output");
                push_field(&mut fields, "data", Json::text(data.as_str()));
                push_field(&mut fields, "encoding", Json::text(encoding.as_str()));
                push_field(&mut fields, "offset", Json::Unsigned(*offset));
                push_field(&mut fields, "size", Json::Unsigned(*size));
                fields
            },
            Response::Written { bytes } => {
                let mut fields = tagged("type", "written");
                push_field(&mut fields, "bytes", Json::Unsigned(*bytes as u64));
                fields
            },
            Response::Copied { path, bytes, mode } => {
                let mut fields = tagged("type", "copied");
                push_field(&mut fields, "path", Json::text(path.as_str()));
                push_field(&mut fields, "bytes", Json::Unsigned(*bytes));
                push_opt_text(&mut fields, "mode", mode);
                fields
            },
            Response::GetStream { size, mode } => {
                let mut fields = tagged("type", "get_stream");
                push_field(&mut fields, "size", Json::Unsigned(*size));
                push_field(&mut fields, "mode", Json::text(mode.as_str()));
                fields
            },
            Response::Got { path, bytes, mode } => {
                let mut fields = tagged("type", "got");
                push_field(&mut fields, "path", Json::text(path.as_str()));
                push_field(&mut fields, "bytes", Json::Unsigned(*bytes));
                push_opt_text(&mut fields, "mode", mode);
                fields
            },
            Response::Killed { id } => {
                let mut fields = tagged("type", "killed");
                push_field(&mut fields, "id", Json::text(id.as_str()));
                fields
            },
            Response::List { processes } => {
                let mut fields = tagged("type", "list");
                push_field(&mut fields, "processes", summaries(processes));
                fields
            },
            Response::Cleaned { removed } => {
                let mut fields = tagged("type", "cleaned");
                push_field(&mut fields, "removed", texts(removed));
                fields
            },
            Response::Version { version, protocol } => {
                let mut fields = tagged("type", "version");
                push_field(&mut fields, "version", Json::text(version.as_str()));
                push_field(&mut fields, "protocol", Json::Unsigned(*protocol as u64));
                fields
            },
            Response::Ping {
                version,
                protocol,
                arch,
                os,
                kernel,
                hostname,
                distro_id,
                distro_version,
            } => {
                let mut fields = tagged("type", "ping");
                push_field(&mut fields, "version", Json::text(version.as_str()));
                push_field(&mut fields, "protocol", Json::Unsigned(*protocol as u64));
                push_field(&mut fields, "arch", Json::text(arch.as_str()));
                push_field(&mut fields, "os", Json::text(os.as_str()));
                push_field(&mut fields, "kernel", Json::text(kernel.as_str()));
                push_field(&mut fields, "hostname", Json::text(hostname.as_str()));
                push_opt_text(&mut fields, "distro_id", distro_id);
                push_opt_text(&mut fields, "distro_version", distro_version);
                fields
            },
            Response::Error { message, code, retryable, hint } => {
                let mut fields = tagged("type", "error");
                let code: ErrorCode = match code {
                    Some(c) => *c,
                    None => ErrorCode::Internal,
                };
                push_field(&mut fields, "message", Json::text(message.as_str()));
                push_field(&mut fields, "code", Json::text(code.as_str()));
                push_field(&mut fields, "retryable", Json::Bool(*retryable));
                push_opt_text(&mut fields, "hint", hint);
                fields
            },
        }
    }

    /// This response as a JSON value.
    pub fn to_value(&self) -> (r: Json)
        ensures
            r.model() == JsonModel::Object(self.fields()),
    {
        let fields = self.to_fields();
        Json::object(fields)
    }
}

impl DaemonRequest {
    /// The fields of this request on the wire.
    pub open spec fn fields(self) -> Seq<(Seq<char>, JsonModel)> {
        match self {
            DaemonRequest::Run {
                host,
                command,
                cwd,
                env,
                timeout_ms,
                stdin_b64,
                keep_stdin_open,
                ephemeral,
            } => seq![
                ("action"@, JsonModel::Text("run"@)),
                ("host"@, JsonModel::Text(host@)),
                ("command"@, texts_model(views(command@))),
                ("cwd"@, text_or_null(cwd)),
                ("env"@, JsonModel::Object(env_fields(env.pairs()))),
                ("timeout_ms"@, int_or_null(lengthened(timeout_ms))),
                ("stdin_b64"@, text_or_null(stdin_b64)),
                ("keep_stdin_open"@, JsonModel::Bool(keep_stdin_open)),
                ("ephemeral"@, JsonModel::Bool(ephemeral)),
            ],
            DaemonRequest::Start { host, command, cwd, env } => seq![
                ("action"@, JsonModel::Text("start"@)),
                ("host"@, JsonModel::Text(host@)),
                ("command"@, texts_model(views(command@))),
                ("cwd"@, text_or_null(cwd)),
                ("env"@, JsonModel::Object(env_fields(env.pairs()))),
            ],
            DaemonRequest::Wait { host, id, timeout_ms } => seq![
                ("action"@, JsonModel::Text("wait"@)),
                ("host"@, JsonModel::Text(host@)),
                ("id"@, JsonModel::Text(id@)),
                ("timeout_ms"@, int_or_null(lengthened(timeout_ms))),
            ],
            DaemonRequest::Status { host, id } => seq![
                ("action"@, JsonModel::Text("status"@)),
                ("host"@, JsonModel::Text(host@)),
                ("id"@, JsonModel::Text(id@)),
            ],
            DaemonRequest::Stdout { host, id, offset, limit } => seq![
                ("action"@, JsonModel::Text("stdout"@)),
                ("host"@, JsonModel::Text(host@)),
                ("id"@, JsonModel::Text(id@)),
                ("offset"@, int_or_null(lengthened(offset))),
                ("limit"@, int_or_null(lengthened(limit))),
            ],
            DaemonRequest::Stderr { host, id, offset, limit } => seq![
                ("action"@, JsonModel::Text("stderr"@)),
                ("host"@, JsonModel::Text(host@)),
                ("id"@, JsonModel::Text(id@)),
                ("offset"@, int_or_null(lengthened(offset))),
                ("limit"@, int_or_null(lengthened(limit))),
            ],
            DaemonRequest::Write { host, id, data_b64 } => seq![
                ("action"@, JsonModel::Text("write"@)),
                ("host"@, JsonModel::Text(host@)),
                ("id"@, JsonModel::Text(id@)),
                ("data_b64"@, JsonModel::Text(data_b64@)),
            ],
            DaemonRequest::CloseStdin { host, id } => seq![
                ("action"@, JsonModel::Text("close_stdin"@)),
                ("host"@, JsonModel::Text(host@)),
                ("id"@, JsonModel::Text(id@)),
            ],
            DaemonRequest::Kill { host, id } => seq![
                ("action"@, JsonModel::Text("kill"@)),
                ("host"@, JsonModel::Text(host@)),
                ("id"@, JsonModel::Text(id@)),
            ],
            DaemonRequest::List { host } => seq![
                ("action"@, JsonModel::Text("list"@)),
                ("host"@, JsonModel::Text(host@)),
            ],
            DaemonRequest::Clean { host } => seq![
                ("action"@, JsonModel::Text("clean"@)),
                ("host"@, JsonModel::Text(host@)),
            ],
            DaemonRequest::Deploy { host } => seq![
                ("action"@, JsonModel::Text("deploy"@)),
                ("host"@, JsonModel::Text(host@)),
            ],
            DaemonRequest::DaemonStatus => seq![("action"@, JsonModel::Text("daemon_status"@))],
            DaemonRequest::DaemonStop => seq![("action"@, JsonModel::Text("daemon_stop"@))],
        }
    }

    #[verifier::rlimit(60)]
    #[verifier::spinoff_prover]
    fn to_fields(&self) -> (r: Vec<(String, Json)>)
        ensures
            fields_model(r@) =~= self.fields(),
    {
        match self {
            DaemonRequest::Run {
                host,
                command,
                cwd,
                env,
                timeout_ms,
                stdin_b64,
                keep_stdin_open,
                ephemeral,
            } => {
                let mut fields = tagged("action", "run");
                push_field(&mut fields, "host", Json::text(host.as_str()));
                push_field(&mut fields, "command", texts(command));
                push_field(&mut fields, "cwd", Json::opt_text(cwd));
                push_field(&mut fields, "env", env.to_value());
                push_field(&mut fields, "timeout_ms", Json::opt_u64(timeout_ms));
                push_field(&mut fields, "stdin_b64", Json::opt_text(stdin_b64));
                push_field(&mut fields, "keep_stdin_open", Json::Bool(*keep_stdin_open));
                push_field(&mut fields, "ephemeral", Json::Bool(*ephemeral));
                fields
            },
            DaemonRequest::Start { host, command, cwd, env } => {
                let mut fields = tagged("action", "start");
                push_field(&mut fields, "host", Json::text(host.as_str()));
                push_field(&mut fields, "command", texts(command));
                push_field(&mut fields, "cwd", Json::opt_text(cwd));
                push_field(&mut fields, "env", env.to_value());
                fields
            },
            DaemonRequest::Wait { host, id, timeout_ms } => {
                let mut fields = tagged("action", "wait");
                push_field(&mut fields, "host", Json::text(host.as_str()));
                push_field(&mut fields, "id", Json::text(id.as_str()));
                push_field(&mut fields, "timeout_ms", Json::opt_u64(timeout_ms));
                fields
            },
            DaemonRequest::Status { host, id } => {
                let mut fields = tagged("action", "status");
                push_field(&mut fields, "host", Json::text(host.as_str()));
                push_field(&mut fields, "id", Json::text(id.as_str()));
                fields
            },
            DaemonRequest::Stdout { host, id, offset, limit } => {
                let mut fields = tagged("action", "stdout");
                push_field(&mut fields, "host", Json::text(host.as_str()));
                push_field(&mut fields, "id", Json::text(id.as_str()));
                push_field(&mut fields, "offset", Json::opt_u64(offset));
                push_field(&mut fields, "limit", Json::opt_u64(limit));
                fields
            },
            DaemonRequest::Stderr { host, id, offset, limit } => {
                let mut fields = tagged("action", "stderr");
                push_field(&mut fields, "host", Json::text(host.as_str()));
                push_field(&mut fields, "id", Json::text(id.as_str()));
                push_field(&mut fields, "offset", Json::opt_u64(offset));
                push_field(&mut fields, "limit", Json::opt_u64(limit));
                fields
            },
            DaemonRequest::Write { host, id, data_b64 } => {
                let mut fields = tagged("action", "write");
                push_field(&mut fields, "host", Json::text(host.as_str()));
                push_field(&mut fields, "id", Json::text(id.as_str()));
                push_field(&mut fields, "data_b64", Json::text(data_b64.as_str()));
                fields
            },
            DaemonRequest::CloseStdin { host, id } => {
                let mut fields = tagged("action", "close_stdin");
                push_field(&mut fields, "host", Json::text(host.as_str()));
                push_field(&mut fields, "id", Json::text(id.as_str()));
                fields
            },
            DaemonRequest::Kill { host, id } => {
                let mut fields = tagged("action", "kill");
                push_field(&mut fields, "host", Json::text(host.as_str()));
                push_field(&mut fields, "id", Json::text(id.as_str()));
                fields
            },
            DaemonRequest::List { host } => {
                let mut fields = tagged("action", "list");
                push_field(&mut fields, "host", Json::text(host.as_str()));
                fields
            },
            DaemonRequest::Clean { host } => {
                let mut fields = tagged("action", "clean");
                push_field(&mut fields, "host", Json::text(host.as_str()));
                fields
            },
            DaemonRequest::Deploy { host } => {
                let mut fields = tagged("action", "deploy");
                push_field(&mut fields, "host", Json::text(host.as_str()));
                fields
            },
            DaemonRequest::DaemonStatus => {
                let mut fields = tagged("action", "daemon_status");
                fields
            },
            DaemonRequest::DaemonStop => {
                let mut fields = tagged("action", "daemon_stop");
                fields
            },
        }
    }

    /// This request as a JSON value.
    pub fn to_value(&self) -> (r: Json)
        ensures
            r.model() == JsonModel::Object(self.fields()),
    {
        let fields = self.to_fields();
        Json::object(fields)
    }
}


/// Every response is an object that leads with its `type`.
pub proof fn lemma_every_response_is_typed(r: Response)
    ensures
        r.fields().len() > 0,
        r.fields()[0].0 == "type"@,
        crate::json::lookup_text(JsonModel::Object(r.fields()), "type"@) is Some,
{
    let fields = r.fields();
    assert(fields[0].0 == "type"@);
    assert(fields[0].1 is Text);
}

/// Every error object carries its type, a message, a code and `retryable`.
pub proof fn lemma_errors_are_typed(r: Response)
    requires
        r is Error,
    ensures
        ({
            let v = JsonModel::Object(r.fields());
            &&& crate::json::lookup_text(v, "type"@) == Some("error"@)
            &&& crate::json::lookup_text(v, "message"@) == Some(r->message@)
            &&& crate::json::lookup_text(v, "code"@) == Some(answered_code(r->code).name())
            &&& crate::json::lookup(v, "retryable"@) == Some(JsonModel::Bool(r->retryable))
        }),
{
    reveal_strlit("type");
    reveal_strlit("message");
    reveal_strlit("code");
    reveal_strlit("retryable");
    let f = r.fields();
    assert("type"@.len() == 4 && "message"@.len() == 7 && "code"@.len() == 4 && "retryable"@.len()
        == 9);
    assert("type"@[0] != "code"@[0]);
    reveal_with_fuel(crate::json::member, 5);
    assert(f.skip(1)[0] == f[1]);
    assert(f.skip(1).skip(1)[0] == f[2]);
    assert(f.skip(1).skip(1).skip(1)[0] == f[3]);
}

} // verus!
