//! What a command sends, over SSH or through the daemon, and what follows.

use vstd::prelude::*;
use vstd::utf8::encode_utf8;

use crate::cli::exit::{exit_for, exit_for_value, exit_of, value_exit};
use crate::cli::Command;
use crate::daemon::server::{dispatched, forwards, reads, Dispatch};
use crate::encoding::{base64_encode, base64_text};
use crate::env::{env_of, env_usable, first_bad_pair, parse_env};
use crate::error::labelled;
use crate::framing::push_all;
use crate::json::{lookup_text, Json, JsonModel};
use crate::protocol::{error_with_hint, is_error, DaemonRequest, ErrorCode, Request, Response};
use crate::text::{same, string_view, views};

verus! {

// ---------------------------------------------------------------------------
// The direct route
// ---------------------------------------------------------------------------

/// What happens to local stdin, and to remote stdout, once a process started.
#[derive(Debug, Clone, Copy, PartialEq, Eq, Structural)]
pub enum StartPipe {
    /// Nothing.
    Off,
    /// Local stdin is fed to the process; its stdin is closed after that unless
    /// `no_close`.
    Feed { no_close: bool },
    /// Local stdin goes to the process, its stdout to ours.
    Both,
}

/// What a command does.
#[derive(Debug)]
pub enum Plan {
    /// Nothing: this is the answer.
    Reply(Response),
    /// Read what is piped in, then send this with it; exit by the remote status.
    Run { host: String, request: Request },
    /// Send this; exit by the remote status where `by_status`.
    Send { host: String, request: Request, body: Vec<u8>, by_status: bool },
    /// Send this, then see to the pipe.
    Start { host: String, request: Request, pipe: StartPipe },
    /// Check that the process runs, then pipe local stdin to it.
    PipedWrite { host: String, id: String },
}

/// The command is routed: over SSH, or through the daemon.
pub open spec fn is_routed(command: Command) -> bool {
    match command {
        Command::Skill | Command::Ping { .. } | Command::Deploy { .. } | Command::Put { .. }
        | Command::Get { .. } | Command::Cache { .. } | Command::Daemon { .. } => false,
        _ => true,
    }
}

/// Seconds as milliseconds, as far as 64 bits go.
pub open spec fn ms_of(timeout: Option<u64>) -> Option<u64> {
    match timeout {
        Some(s) => Some(
            if s * 1000 <= u64::MAX {
                (s * 1000) as u64
            } else {
                u64::MAX
            },
        ),
        None => None,
    }
}

/// A second is a thousand milliseconds. A time that does not fit is as long as can
/// be; no time stays none.
pub proof fn lemma_seconds_in_milliseconds(s: u64)
    ensures
        ms_of(Some(s)) matches Some(ms) && (ms == s * 1000 || ms == u64::MAX) && (s <= u64::MAX
            / 1000 <==> ms as int / 1000 == s && ms as int % 1000 == 0),
        ms_of(Some(s)) matches Some(ms) && ms >= s,
        s * 1000 > u64::MAX ==> ms_of(Some(s)) == Some(u64::MAX),
        ms_of(None) is None,
{
}

fn milliseconds(timeout: Option<u64>) -> (r: Option<u64>)
    ensures
        r == ms_of(timeout),
{
    match timeout {
        Some(s) => {
            if s <= 18446744073709551 {
                Some(s * 1000)
            } else {
                Some(u64::MAX)
            }
        },
        None => None,
    }
}

/// The bytes of an inline write: the text, and a newline unless it is raw.
pub open spec fn written_bytes(input: Seq<char>, raw: bool) -> Seq<u8> {
    if raw {
        encode_utf8(input)
    } else {
        encode_utf8(input).push(0x0a)
    }
}

/// A text that is written ends in one newline of ours, and in none where it is raw;
/// the text itself is not altered.
pub proof fn lemma_text_is_written(input: Seq<char>)
    ensures
        written_bytes(input, true) == encode_utf8(input),
        written_bytes(input, false).len() == written_bytes(input, true).len() + 1,
        written_bytes(input, false).last() == '\n' as u8,
        written_bytes(input, false).drop_last() == written_bytes(input, true),
{
    assert(written_bytes(input, false).drop_last() =~= encode_utf8(input));
}

/// Bytes to write for an inline `write` (newline appended unless raw).
pub fn write_bytes(input: &str, raw: bool) -> (r: Vec<u8>)
    ensures
        r@ == written_bytes(input@, raw),
{
    let mut out: Vec<u8> = Vec::new();
    push_all(&mut out, input.as_bytes());
    if !raw {
        out.push(0x0a);
    }
    assert(out@ =~= written_bytes(input@, raw));
    out
}

/// `r` rejects the first pair that is not K=V.
pub open spec fn rejects_env(r: Plan, pairs: Seq<String>) -> bool {
    r matches Plan::Reply(resp) && exists|i: int| #[trigger]
        first_bad_pair(pairs, i) && is_error(
            resp,
            ErrorCode::BadRequest,
            "invalid --env '"@ + pairs[i]@ + "' (expected K=V)"@,
            None,
        )
}

/// The pipe of a start: asked for, or needed because something is piped in.
pub open spec fn pipe_of(pipe: bool, no_close: bool, stdin_is_terminal: bool) -> StartPipe {
    if pipe {
        StartPipe::Both
    } else if !stdin_is_terminal {
        StartPipe::Feed { no_close }
    } else {
        StartPipe::Off
    }
}

/// `r` sends `what` without a body.
pub open spec fn sends(r: Plan, to: String, what: Request, status: bool) -> bool {
    r matches Plan::Send { host, request, body, by_status } && host == to && request == what
        && body@ == Seq::<u8>::empty() && by_status == status
}

/// `r` reads a stream.
pub open spec fn sends_read(
    r: Plan,
    to: String,
    of: String,
    name: Seq<char>,
    from: Option<u64>,
    most: Option<u64>,
) -> bool {
    r matches Plan::Send { host, request, body, by_status } && host == to && (request
        matches Request::Read { id, stream, offset, limit } && id == of && stream@ == name && offset
        == from && limit == most) && body@ == Seq::<u8>::empty() && !by_status
}

/// What a routed command does. Arguments are checked before stdin is touched:
/// reading first would block on an idle pipe, and swallow what a producer wrote,
/// for a call that is about to be rejected.
pub open spec fn planned(command: Command, stdin_is_terminal: bool, r: Plan) -> bool {
    match command {
        Command::Run { host, command, cwd, env, timeout, keep_stdin_open, keep } => if env_usable(
            env@,
        ) {
            r matches Plan::Run { host: h, request } && h == host && (request matches Request::Run {
                command: c,
                cwd: d,
                env: e,
                timeout_ms,
                keep_stdin_open: k,
                ephemeral,
            } && c == command && d == cwd && e.wf() && e@ == env_of(views(env@)) && timeout_ms
                == ms_of(timeout) && k == keep_stdin_open && ephemeral == !keep)
        } else {
            rejects_env(r, env@)
        },
        Command::Start { host, command, cwd, env, no_close_stdin, pipe } => if env_usable(env@) {
            r matches Plan::Start { host: h, request, pipe: p } && h == host && (request
                matches Request::Start { command: c, cwd: d, env: e } && c == command && d == cwd
                && e.wf() && e@ == env_of(views(env@))) && p == pipe_of(
                pipe,
                no_close_stdin,
                stdin_is_terminal,
            )
        } else {
            rejects_env(r, env@)
        },
        Command::Wait { host, id, timeout } => sends(
            r,
            host,
            Request::Wait { id, timeout_ms: ms_of(timeout) },
            true,
        ),
        Command::Status { host, id } => sends(r, host, Request::Status { id }, false),
        Command::Stdout { host, id, offset, limit } => sends_read(
            r,
            host,
            id,
            "stdout"@,
            offset,
            limit,
        ),
        Command::Stderr { host, id, offset, limit } => sends_read(
            r,
            host,
            id,
            "stderr"@,
            offset,
            limit,
        ),
        Command::Write { host, id, input, raw } => match input {
            Some(text) => r matches Plan::Send { host: h, request, body, by_status } && h == host
                && request == (Request::Write { id }) && body@ == written_bytes(text@, raw)
                && !by_status,
            None => if stdin_is_terminal {
                r matches Plan::Reply(resp) && is_error(
                    resp,
                    ErrorCode::BadRequest,
                    "no input provided and stdin is not piped"@,
                    Some(
                        "pass the text as an argument (`rx write HOST ID TEXT`) or pipe it in"@,
                    ),
                )
            } else {
                r == (Plan::PipedWrite { host, id })
            },
        },
        Command::CloseStdin { host, id } => sends(r, host, Request::CloseStdin { id }, false),
        Command::Kill { host, id } => sends(r, host, Request::Kill { id }, false),
        Command::List { host } => sends(r, host, Request::List, false),
        Command::Clean { host } => sends(r, host, Request::Clean, false),
        _ => false,
    }
}

/// The host that a plan turns to.
pub open spec fn plan_host(r: Plan) -> Option<Seq<char>> {
    match r {
        Plan::Reply(_) => None,
        Plan::Run { host, .. } => Some(host@),
        Plan::Send { host, .. } => Some(host@),
        Plan::Start { host, .. } => Some(host@),
        Plan::PipedWrite { host, .. } => Some(host@),
    }
}

/// What a plan sends.
pub open spec fn plan_request(r: Plan) -> Option<Request> {
    match r {
        Plan::Run { request, .. } => Some(request),
        Plan::Send { request, .. } => Some(request),
        Plan::Start { request, .. } => Some(request),
        Plan::Reply(_) | Plan::PipedWrite { .. } => None,
    }
}

/// The process that a plan is about.
pub open spec fn plan_id(r: Plan) -> Option<Seq<char>> {
    match r {
        Plan::PipedWrite { id, .. } => Some(id@),
        _ => match plan_request(r) {
            Some(Request::Wait { id, .. }) => Some(id@),
            Some(Request::Status { id }) => Some(id@),
            Some(Request::Read { id, .. }) => Some(id@),
            Some(Request::Write { id }) => Some(id@),
            Some(Request::CloseStdin { id }) => Some(id@),
            Some(Request::Kill { id }) => Some(id@),
            _ => None,
        },
    }
}

/// A plan turns to the one host that the command names and to no other, and it is
/// about the process that the command names; only a run and a wait take their exit
/// status from the command that ran.
pub proof fn lemma_plan_keeps_host_and_process(command: Command, stdin_is_terminal: bool, r: Plan)
    requires
        planned(command, stdin_is_terminal, r),
    ensures
        plan_host(r) matches Some(h) ==> crate::cli::hosts_of(command) == seq![h],
        r !is Reply ==> plan_id(r) == crate::cli::id_of(command),
        r matches Plan::Send { by_status, .. } ==> by_status == (command is Wait),
        r is Run ==> command is Run,
        r is Reply ==> (r->Reply_0 matches Response::Error { code, .. } && code == Some(
            ErrorCode::BadRequest,
        )),
{
}

/// A plan asks for what was commanded, with every option that was given: a run keeps
/// its directory exactly where that was asked for, times are counted in milliseconds,
/// and each output command reads its own stream.
pub proof fn lemma_plan_asks_for_what_was_commanded(
    command: Command,
    stdin_is_terminal: bool,
    r: Plan,
)
    requires
        planned(command, stdin_is_terminal, r),
        r !is Reply,
    ensures
        command is Kill <==> plan_request(r) matches Some(Request::Kill { .. }),
        command is Status <==> plan_request(r) matches Some(Request::Status { .. }),
        command is CloseStdin <==> plan_request(r) matches Some(Request::CloseStdin { .. }),
        command is List <==> plan_request(r) matches Some(Request::List),
        command is Clean <==> plan_request(r) matches Some(Request::Clean),
        command matches Command::Wait { timeout, .. } ==> (plan_request(r) matches Some(
            Request::Wait { timeout_ms, .. },
        ) && timeout_ms == ms_of(timeout)),
        command matches Command::Stdout { offset: o, limit: l, .. } ==> (plan_request(r)
            matches Some(Request::Read { stream, offset, limit, .. }) && stream@ == "stdout"@
            && offset == o && limit == l),
        command matches Command::Stderr { offset: o, limit: l, .. } ==> (plan_request(r)
            matches Some(Request::Read { stream, offset, limit, .. }) && stream@ == "stderr"@
            && offset == o && limit == l),
        command matches Command::Run { command: words, cwd: dir, env: pairs, timeout, keep_stdin_open: open, keep, .. }
            ==> (plan_request(r) matches Some(
            Request::Run { command: c, cwd, env, timeout_ms, keep_stdin_open, ephemeral },
        ) && views(c@) == views(words@) && string_view(cwd) == string_view(dir) && env@ == env_of(
            views(pairs@),
        ) && timeout_ms == ms_of(timeout) && keep_stdin_open == open && ephemeral != keep),
        command matches Command::Start { command: words, cwd: dir, env: pairs, .. } ==> (
        plan_request(r) matches Some(Request::Start { command: c, cwd, env }) && views(c@) == views(
            words@,
        ) && string_view(cwd) == string_view(dir) && env@ == env_of(views(pairs@))),
        command matches Command::Write { input: Some(text), raw, .. } ==> (plan_request(r)
            matches Some(Request::Write { .. })) && (r matches Plan::Send { body, .. } && body@
            == written_bytes(text@, raw)),
        command matches Command::Write { input: None, .. } ==> r is PipedWrite
            && !stdin_is_terminal,
        command !is Write ==> (r matches Plan::Send { body, .. } ==> body@.len() == 0),
{
}

/// What is piped in is never lost: a start that does not pipe both ways feeds it to
/// the process, and closes the process's stdin after it unless that is to stay open.
pub proof fn lemma_piped_input_is_fed(no_close: bool, stdin_is_terminal: bool)
    ensures
        pipe_of(true, no_close, stdin_is_terminal) == StartPipe::Both,
        !stdin_is_terminal ==> pipe_of(false, no_close, stdin_is_terminal) == (StartPipe::Feed {
            no_close,
        }),
        stdin_is_terminal ==> pipe_of(false, no_close, stdin_is_terminal) == StartPipe::Off,
{
}

fn send(host: String, request: Request, by_status: bool) -> (r: Plan)
    ensures
        sends(r, host, request, by_status),
{
    let body: Vec<u8> = Vec::new();
    assert(body@ =~= Seq::<u8>::empty());
    Plan::Send { host, request, body, by_status }
}

/// What a command does, apart from those that are never routed.
pub fn route_via_ssh(command: Command, stdin_is_terminal: bool) -> (r: Plan)
    requires
        is_routed(command),
    ensures
        planned(command, stdin_is_terminal, r),
{
    match command {
        Command::Run { host, command: words, cwd, env, timeout, keep_stdin_open, keep } => {
            match parse_env(&env) {
                Ok(e) => Plan::Run {
                    host,
                    request: Request::Run {
                        command: words,
                        cwd,
                        env: e,
                        timeout_ms: milliseconds(timeout),
                        keep_stdin_open,
                        ephemeral: !keep,
                    },
                },
                Err(m) => rejected_env(&env, m.as_str()),
            }
        },
        Command::Start { host, command: words, cwd, env, no_close_stdin, pipe } => {
            match parse_env(&env) {
                Ok(e) => {
                    let p = if pipe {
                        StartPipe::Both
                    } else if !stdin_is_terminal {
                        StartPipe::Feed { no_close: no_close_stdin }
                    } else {
                        StartPipe::Off
                    };
                    Plan::Start { host, request: Request::Start { command: words, cwd, env: e }, pipe: p }
                },
                Err(m) => rejected_env(&env, m.as_str()),
            }
        },
        Command::Wait { host, id, timeout } => send(
            host,
            Request::Wait { id, timeout_ms: milliseconds(timeout) },
            true,
        ),
        Command::Status { host, id } => send(host, Request::Status { id }, false),
        Command::Stdout { host, id, offset, limit } => send(
            host,
            Request::Read { id, stream: "stdout".to_owned(), offset, limit },
            false,
        ),
        Command::Stderr { host, id, offset, limit } => send(
            host,
            Request::Read { id, stream: "stderr".to_owned(), offset, limit },
            false,
        ),
        Command::Write { host, id, input, raw } => match input {
            Some(text) => {
                let body = write_bytes(text.as_str(), raw);
                Plan::Send { host, request: Request::Write { id }, body, by_status: false }
            },
            None => {
                if stdin_is_terminal {
                    Plan::Reply(
                        error_with_hint(
                            ErrorCode::BadRequest,
                            "no input provided and stdin is not piped",
                            "pass the text as an argument (`rx write HOST ID TEXT`) or pipe it in",
                        ),
                    )
                } else {
                    Plan::PipedWrite { host, id }
                }
            },
        },
        Command::CloseStdin { host, id } => send(host, Request::CloseStdin { id }, false),
        Command::Kill { host, id } => send(host, Request::Kill { id }, false),
        Command::List { host } => send(host, Request::List, false),
        Command::Clean { host } => send(host, Request::Clean, false),
        // Never routed: handled before.
        _ => Plan::Reply(Response::error("not a routed command")),
    }
}

fn rejected_env(pairs: &Vec<String>, m: &str) -> (r: Plan)
    requires
        exists|i: int| #[trigger] first_bad_pair(pairs@, i) && m@ == "invalid --env '"@
            + pairs@[i]@ + "' (expected K=V)"@,
    ensures
        rejects_env(r, pairs@),
{
    Plan::Reply(Response::error_code(ErrorCode::BadRequest, m))
}

// ---------------------------------------------------------------------------
// The route through the daemon
// ---------------------------------------------------------------------------

/// The daemon takes such requests.
pub open spec fn is_relayable(q: Request) -> bool {
    match q {
        Request::Read { stream, .. } => stream@ == "stdout"@ || stream@ == "stderr"@,
        Request::Put { .. } | Request::PutStream { .. } | Request::Get { .. } | Request::Version
        | Request::Ping => false,
        _ => true,
    }
}

/// Files and probes always go straight to the host; everything that is asked of a
/// process, and every list and cleaning, can go through the daemon.
pub proof fn lemma_what_the_daemon_takes(q: Request)
    ensures
        q is Put || q is PutStream || q is Get || q is Version || q is Ping ==> !is_relayable(q),
        q is Run || q is Start || q is Wait || q is Status || q is Write || q is CloseStdin || q
            is Kill || q is List || q is Clean ==> is_relayable(q),
        q matches Request::Read { stream, .. } ==> (is_relayable(q) <==> stream@ == "stdout"@
            || stream@ == "stderr"@),
{
}

/// `t` carries a body that may be empty.
pub open spec fn carries(t: Option<String>, body: Seq<u8>) -> bool {
    if body.len() == 0 {
        t is None
    } else {
        t matches Some(s) && s@ == base64_text(body)
    }
}

/// `d` asks the daemon for what `q` asks the host for.
pub open spec fn relayed(to: String, q: Request, body: Seq<u8>, d: DaemonRequest) -> bool {
    match q {
        Request::Run { command, cwd, env, timeout_ms, keep_stdin_open, ephemeral } => d
            matches DaemonRequest::Run {
            host,
            command: c,
            cwd: w,
            env: e,
            timeout_ms: t,
            stdin_b64,
            keep_stdin_open: k,
            ephemeral: p,
        } && host == to && c == command && w == cwd && e == env && t == timeout_ms && k
            == keep_stdin_open && p == ephemeral && carries(stdin_b64, body),
        Request::Start { command, cwd, env } => d == (DaemonRequest::Start {
            host: to,
            command,
            cwd,
            env,
        }),
        Request::Wait { id, timeout_ms } => d == (DaemonRequest::Wait { host: to, id, timeout_ms }),
        Request::Status { id } => d == (DaemonRequest::Status { host: to, id }),
        Request::Read { id, stream, offset, limit } => if stream@ == "stdout"@ {
            d == (DaemonRequest::Stdout { host: to, id, offset, limit })
        } else {
            d == (DaemonRequest::Stderr { host: to, id, offset, limit })
        },
        Request::Write { id } => d matches DaemonRequest::Write { host, id: i, data_b64 } && host
            == to && i == id && data_b64@ == base64_text(body),
        Request::CloseStdin { id } => d == (DaemonRequest::CloseStdin { host: to, id }),
        Request::Kill { id } => d == (DaemonRequest::Kill { host: to, id }),
        Request::List => d == (DaemonRequest::List { host: to }),
        Request::Clean => d == (DaemonRequest::Clean { host: to }),
        _ => false,
    }
}

/// The request to the daemon for a request to a host, where it takes such.
pub fn route_via_daemon(host: String, request: Request, body: &[u8]) -> (r: Option<DaemonRequest>)
    ensures
        r is Some <==> is_relayable(request),
        r matches Some(d) ==> relayed(host, request, body@, d),
{
    match request {
        Request::Run { command, cwd, env, timeout_ms, keep_stdin_open, ephemeral } => {
            let stdin_b64 = if body.len() > 0 {
                Some(base64_encode(body))
            } else {
                None
            };
            Some(
                DaemonRequest::Run {
                    host,
                    command,
                    cwd,
                    env,
                    timeout_ms,
                    stdin_b64,
                    keep_stdin_open,
                    ephemeral,
                },
            )
        },
        Request::Start { command, cwd, env } => Some(
            DaemonRequest::Start { host, command, cwd, env },
        ),
        Request::Wait { id, timeout_ms } => Some(DaemonRequest::Wait { host, id, timeout_ms }),
        Request::Status { id } => Some(DaemonRequest::Status { host, id }),
        Request::Read { id, stream, offset, limit } => {
            if same(stream.as_str(), "stdout") {
                Some(DaemonRequest::Stdout { host, id, offset, limit })
            } else if same(stream.as_str(), "stderr") {
                Some(DaemonRequest::Stderr { host, id, offset, limit })
            } else {
                None
            }
        },
        Request::Write { id } => Some(
            DaemonRequest::Write { host, id, data_b64: base64_encode(body) },
        ),
        Request::CloseStdin { id } => Some(DaemonRequest::CloseStdin { host, id }),
        Request::Kill { id } => Some(DaemonRequest::Kill { host, id }),
        Request::List => Some(DaemonRequest::List { host }),
        Request::Clean => Some(DaemonRequest::Clean { host }),
        Request::Put { .. }
        | Request::PutStream { .. }
        | Request::Get { .. }
        | Request::Version
        | Request::Ping => None,
    }
}

/// The daemon does with `d` what the direct route does with `q` and `body`.
pub open spec fn does_same(d: Dispatch, to: String, q: Request, body: Seq<u8>) -> bool {
    match q {
        Request::Start { .. } => d == (Dispatch::Start { host: to, request: q }),
        Request::Clean => d == (Dispatch::Clean { host: to, request: q }),
        Request::Read { id, stream, offset, limit } => reads(d, to, id, stream@, offset, limit),
        Request::Run { .. } | Request::Write { .. } => forwards(d, to, q, body),
        _ => forwards(d, to, q, Seq::empty()),
    }
}

/// Routing through the daemon changes neither the request nor its body: what the
/// daemon forwards is what the direct route sends, byte for byte.
pub proof fn lemma_routes_agree(
    host: String,
    q: Request,
    body: Seq<u8>,
    relay: DaemonRequest,
    d: Dispatch,
)
    requires
        is_relayable(q),
        relayed(host, q, body, relay),
        dispatched(relay, d),
    ensures
        does_same(d, host, q, body),
{
    crate::encoding::lemma_base64_roundtrip(body);
    if body.len() == 0 {
        assert(body =~= Seq::<u8>::empty());
    }
}

// ---------------------------------------------------------------------------
// After a start
// ---------------------------------------------------------------------------

/// What follows once the answer to a start was printed.
#[derive(Debug)]
pub enum Followup {
    /// Exit with this.
    Exit(u8),
    /// Feed local stdin to the process.
    Feed { id: String, no_close: bool },
    /// Pipe both ways.
    Both { id: String },
}

/// `r` is what follows when process `id` started.
pub open spec fn is_followup(r: Followup, of: Seq<char>, pipe: StartPipe) -> bool {
    match pipe {
        StartPipe::Off => r == Followup::Exit(0),
        StartPipe::Feed { no_close } => r matches Followup::Feed { id, no_close: n } && id@ == of
            && n == no_close,
        StartPipe::Both => r matches Followup::Both { id } && id@ == of,
    }
}

fn followup(id: &str, pipe: StartPipe) -> (r: Followup)
    ensures
        is_followup(r, id@, pipe),
{
    match pipe {
        StartPipe::Off => Followup::Exit(0),
        StartPipe::Feed { no_close } => Followup::Feed { id: id.to_owned(), no_close },
        StartPipe::Both => Followup::Both { id: id.to_owned() },
    }
}

/// `r` is what follows the answer to a start.
pub open spec fn follows_start(r: Followup, response: Response, pipe: StartPipe) -> bool {
    match response {
        Response::Started { id } => is_followup(r, id@, pipe),
        _ => r == Followup::Exit(exit_of(response)),
    }
}

/// What is piped goes to the process that was started, as it was asked for. Where
/// none was started nothing is piped, and a start that was refused does not exit as
/// one that worked.
pub proof fn lemma_followup_is_for_the_started(r: Followup, response: Response, pipe: StartPipe)
    requires
        follows_start(r, response, pipe),
    ensures
        r matches Followup::Feed { id, no_close } ==> (response matches Response::Started { id: i }
            && i@ == id@) && pipe == (StartPipe::Feed { no_close }),
        r matches Followup::Both { id } ==> (response matches Response::Started { id: i } && i@
            == id@) && pipe is Both,
        response is Started ==> (r is Exit <==> pipe is Off),
        response is Started && pipe is Off ==> r == Followup::Exit(0),
        response is Error ==> (r matches Followup::Exit(code) && code != 0),
{
    if response is Error {
        crate::cli::exit::lemma_exit_says_whose_fault(response);
    }
}

/// What follows the answer to a start.
pub fn after_start(response: &Response, pipe: StartPipe) -> (r: Followup)
    ensures
        follows_start(r, *response, pipe),
{
    match response {
        Response::Started { id } => followup(id.as_str(), pipe),
        _ => Followup::Exit(exit_for(response)),
    }
}

/// The process ID in an answer that arrived as a value; empty where there is
/// none.
pub open spec fn started_id(v: JsonModel) -> Seq<char> {
    match lookup_text(v, "id"@) {
        Some(id) => id,
        None => Seq::empty(),
    }
}

/// `r` is what follows the answer to a start that arrived as a value.
pub open spec fn follows_start_value(r: Followup, v: JsonModel, pipe: StartPipe) -> bool {
    &&& pipe is Off ==> r == Followup::Exit(value_exit(v, false))
    &&& pipe !is Off ==> (if started_id(v).len() > 0 {
        is_followup(r, started_id(v), pipe)
    } else if lookup_text(v, "type"@) == Some("error"@) {
        r == Followup::Exit(value_exit(v, false))
    } else {
        r == Followup::Exit(1)
    })
}

/// An answer that arrived as a value leads to what the answer itself leads to: what
/// is piped goes to the process that it names, and one that names none does not
/// exit as a start that worked.
pub proof fn lemma_value_followup_is_for_the_started(r: Followup, v: JsonModel, pipe: StartPipe)
    requires
        follows_start_value(r, v, pipe),
        pipe !is Off,
    ensures
        r matches Followup::Feed { id, no_close } ==> lookup_text(v, "id"@) == Some(id@)
            && pipe == (StartPipe::Feed { no_close }),
        r matches Followup::Both { id } ==> lookup_text(v, "id"@) == Some(id@) && pipe is Both,
        (lookup_text(v, "id"@) matches Some(id) && id.len() > 0) ==> r !is Exit,
        lookup_text(v, "id"@) is None && lookup_text(v, "type"@) != Some("error"@) ==> r
            == Followup::Exit(1),
{
    if lookup_text(v, "id"@) is None {
        assert(started_id(v).len() == 0);
    }
}

/// What follows the answer to a start that arrived as a value. A start that pipes
/// nothing exits by the answer. One that does needs a process to pipe to: without
/// one an error exits by its code, as it does on the direct route, and any other
/// answer is a failure.
pub fn after_start_value(data: &Json, pipe: StartPipe) -> (r: Followup)
    ensures
        follows_start_value(r, data.model(), pipe),
{
    if matches!(pipe, StartPipe::Off) {
        return Followup::Exit(exit_for_value(data, false));
    }
    if let Some(id) = data.get_text("id") {
        if !id.is_empty() {
            return followup(id, pipe);
        }
    }
    let failed = match data.get_text("type") {
        Some(t) => same(t, "error"),
        None => false,
    };
    if failed {
        Followup::Exit(exit_for_value(data, false))
    } else {
        Followup::Exit(1)
    }
}

/// A start that pipes nothing exits alike on both routes, whatever the answer.
pub proof fn lemma_unpiped_starts_exit_alike(response: Response)
    ensures
        exit_of(response) == value_exit(JsonModel::Object(response.fields()), false),
        response is Started ==> exit_of(response) == 0,
{
    crate::cli::exit::lemma_value_path_agrees(response);
}

// ---------------------------------------------------------------------------
// Before a piped write
// ---------------------------------------------------------------------------

/// `r` says why a process does not take what is about to be piped to it, if so.
pub open spec fn is_preflight(
    r: Option<Response>,
    host: Seq<char>,
    id: Seq<char>,
    response: Response,
    shown: Seq<char>,
) -> bool {
    match response {
        Response::Status { state, .. } => if state@ == "running"@ {
            r is None
        } else {
            r matches Some(resp) && is_error(
                resp,
                ErrorCode::ProcessExited,
                "process "@ + id + " on "@ + host + " is "@ + state@ + "; cannot write stdin"@,
                None,
            )
        },
        Response::Error { .. } => r == Some(response),
        _ => r matches Some(resp) && is_error(
            resp,
            ErrorCode::Internal,
            "unexpected status response before piped write: "@ + shown,
            None,
        ),
    }
}

/// Input is piped only to a process whose status says that it runs; an error is
/// passed on as it came, and a process that ended is an ended process.
pub proof fn lemma_only_the_running_are_fed(
    r: Option<Response>,
    host: Seq<char>,
    id: Seq<char>,
    response: Response,
    shown: Seq<char>,
)
    requires
        is_preflight(r, host, id, response, shown),
    ensures
        r is None <==> (response matches Response::Status { state, .. } && crate::process::state_of(
            state@,
        ) == crate::process::ProcessState::Running),
        response is Error ==> r == Some(response),
        r matches Some(resp) ==> resp is Error,
        response is Status && r is Some ==> (r->0 matches Response::Error { code, .. } && code
            == Some(ErrorCode::ProcessExited)),
{
}

/// Whether a process takes what is about to be piped to it: the answer where it
/// does not. `shown` is the response as it is shown in a message.
pub fn preflight_piped_write(host: &str, id: &str, response: Response, shown: &str) -> (r: Option<
    Response,
>)
    ensures
        is_preflight(r, host@, id@, response, shown@),
{
    match &response {
        Response::Status { state, .. } => {
            if same(state.as_str(), "running") {
                return None;
            }
            let mut text = labelled("process ", id);
            text.append(" on ");
            text.append(host);
            text.append(" is ");
            text.append(state.as_str());
            text.append("; cannot write stdin");
            Some(Response::error_code(ErrorCode::ProcessExited, text.as_str()))
        },
        Response::Error { .. } => Some(response),
        _ => Some(
            Response::error_code(
                ErrorCode::Internal,
                labelled("unexpected status response before piped write: ", shown).as_str(),
            ),
        ),
    }
}

} // verus!
