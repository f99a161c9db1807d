//! The rules of the `rx` command line: what a call means, what it answers, and
//! how it exits.

use vstd::prelude::*;

use crate::error::{labelled, IoError};
use crate::process::{is_process_id, is_valid_process_id};
use crate::protocol::{is_error, ErrorCode, Response};
use crate::ssh::{host_fault, push_arg, validate_host};
use crate::text::{
    debug_text, lowered, same, slice_view, split_first, split_once, string_view, to_ascii_lowercase,
    trim, trimmed, views,
};

pub mod errors;
pub mod exit;
pub mod parse;
pub mod pipe;
pub mod report;
pub mod route;
pub mod transfer;

verus! {

// ---------------------------------------------------------------------------
// Commands
// ---------------------------------------------------------------------------

/// What `rx` was asked to do.
#[allow(inconsistent_fields)]
#[derive(Debug)]
pub enum Command {
    /// The full guide.
    Skill,
    /// Probe reachability and host identity.
    Ping { host: String },
    /// Install the matching rxd on one or more hosts.
    Deploy { hosts: Vec<String>, binary: Option<String>, offline: bool, allow_downgrade: bool },
    /// Run a command to completion; after the timeout (seconds) it goes on in the
    /// background.
    Run {
        host: String,
        command: Vec<String>,
        cwd: Option<String>,
        env: Vec<String>,
        timeout: Option<u64>,
        keep_stdin_open: bool,
        keep: bool,
    },
    /// Start a detached process on a remote host.
    Start {
        host: String,
        command: Vec<String>,
        cwd: Option<String>,
        env: Vec<String>,
        no_close_stdin: bool,
        pipe: bool,
    },
    /// Wait for a process to exit, up to the timeout (seconds).
    Wait { host: String, id: String, timeout: Option<u64> },
    Status { host: String, id: String },
    Stdout { host: String, id: String, offset: Option<u64>, limit: Option<u64> },
    Stderr { host: String, id: String, offset: Option<u64>, limit: Option<u64> },
    /// List all processes on a host.
    List { host: String },
    /// Clean up exited processes.
    Clean { host: String },
    /// Write to a process's stdin; without input, what is piped in.
    Write { host: String, id: String, input: Option<String>, raw: bool },
    /// Send EOF to a process.
    CloseStdin { host: String, id: String },
    Kill { host: String, id: String },
    /// Write a local file, or stdin with `-`, to HOST:PATH.
    Put {
        local: String,
        remote: String,
        mode: Option<String>,
        owner: Option<String>,
        group: Option<String>,
        allow_empty: bool,
    },
    /// Download HOST:PATH to a local file.
    Get { remote: String, local: String, mode: Option<String> },
    /// Manage the local cache of rxd binaries.
    Cache { action: CacheAction },
    /// Manage the local daemon.
    Daemon { action: DaemonAction },
}

/// What to do with the local cache of rxd binaries.
#[derive(Debug)]
pub enum CacheAction {
    /// Download static rxd binaries into the local cache.
    Fetch { version: Option<String>, arch: Vec<String>, force: bool },
}

/// What to do with the local daemon.
#[derive(Debug, Clone, Copy, PartialEq, Eq, Structural)]
pub enum DaemonAction {
    Start,
    Stop,
    Status,
}

/// The process ID a command carries, if it takes one.
pub open spec fn id_of(command: Command) -> Option<Seq<char>> {
    match command {
        Command::Wait { id, .. } => Some(id@),
        Command::Status { id, .. } => Some(id@),
        Command::Stdout { id, .. } => Some(id@),
        Command::Stderr { id, .. } => Some(id@),
        Command::Write { id, .. } => Some(id@),
        Command::CloseStdin { id, .. } => Some(id@),
        Command::Kill { id, .. } => Some(id@),
        _ => None,
    }
}

/// The process ID a command carries, if it takes one.
///
/// Every variant is named rather than ending in a wildcard: a new command that
/// takes an ID must not silently skip validation.
pub fn command_process_id(command: &Command) -> (r: Option<&str>)
    ensures
        slice_view(r) == id_of(*command),
{
    match command {
        Command::Wait { id, .. }
        | Command::Status { id, .. }
        | Command::Stdout { id, .. }
        | Command::Stderr { id, .. }
        | Command::Write { id, .. }
        | Command::CloseStdin { id, .. }
        | Command::Kill { id, .. } => Some(id.as_str()),
        Command::Run { .. }
        | Command::Start { .. }
        | Command::List { .. }
        | Command::Clean { .. }
        | Command::Ping { .. }
        | Command::Deploy { .. }
        | Command::Put { .. }
        | Command::Get { .. }
        | Command::Daemon { .. }
        | Command::Cache { .. }
        | Command::Skill => None,
    }
}

/// The two halves of HOST:PATH, neither of which is empty.
pub open spec fn host_path(remote: Seq<char>) -> Option<(Seq<char>, Seq<char>)> {
    match split_first(remote, ':') {
        Some((h, p)) => if h.len() > 0 && p.len() > 0 {
            Some((h, p))
        } else {
            None
        },
        None => None,
    }
}

/// HOST:PATH is cut at the first colon, so that a path may hold others; both halves
/// are needed.
pub proof fn lemma_host_and_path(host: Seq<char>, path: Seq<char>)
    requires
        !host.contains(':'),
    ensures
        host.len() > 0 && path.len() > 0 ==> host_path(host + seq![':'] + path) == Some(
            (host, path),
        ),
        host.len() == 0 || path.len() == 0 ==> host_path(host + seq![':'] + path) is None,
        host_path(host) is None,
{
    crate::text::lemma_split_first(host, path, ':');
}

/// Cuts HOST:PATH in two.
pub fn split_host_path(remote: &str) -> (r: Option<(String, String)>)
    ensures
        r is Some <==> host_path(remote@) is Some,
        r matches Some((h, p)) ==> host_path(remote@) == Some((h@, p@)),
{
    match split_once(remote, ':') {
        Some((h, p)) => {
            if h.as_str().is_empty() || p.as_str().is_empty() {
                None
            } else {
                Some((h, p))
            }
        },
        None => None,
    }
}

/// The one host of HOST:PATH, or none where the argument cannot be cut.
pub open spec fn host_of(remote: Seq<char>) -> Seq<Seq<char>> {
    match host_path(remote) {
        Some((h, _)) => seq![h],
        None => Seq::empty(),
    }
}

/// Every SSH destination a command will touch.
pub open spec fn hosts_of(command: Command) -> Seq<Seq<char>> {
    match command {
        Command::Run { host, .. } => seq![host@],
        Command::Start { host, .. } => seq![host@],
        Command::Wait { host, .. } => seq![host@],
        Command::Status { host, .. } => seq![host@],
        Command::Stdout { host, .. } => seq![host@],
        Command::Stderr { host, .. } => seq![host@],
        Command::Write { host, .. } => seq![host@],
        Command::CloseStdin { host, .. } => seq![host@],
        Command::Kill { host, .. } => seq![host@],
        Command::List { host } => seq![host@],
        Command::Clean { host } => seq![host@],
        Command::Ping { host } => seq![host@],
        Command::Deploy { hosts, .. } => views(hosts@),
        Command::Put { remote, .. } => host_of(remote@),
        Command::Get { remote, .. } => host_of(remote@),
        Command::Daemon { .. } | Command::Cache { .. } | Command::Skill => Seq::empty(),
    }
}

fn only(host: &str) -> (r: Vec<String>)
    ensures
        views(r@) == seq![host@],
{
    let mut v: Vec<String> = Vec::new();
    push_arg(&mut v, host);
    assert(views(v@) =~= seq![host@]);
    v
}

/// Every SSH destination this command will touch.
///
/// Every variant is named, so a new command with a host must be listed here
/// rather than silently skip validation. For the HOST:PATH forms an argument
/// that cannot be cut yields nothing; the command's own error is the better
/// message there.
pub fn command_hosts(command: &Command) -> (r: Vec<String>)
    ensures
        views(r@) == hosts_of(*command),
{
    match command {
        Command::Run { host, .. }
        | Command::Start { host, .. }
        | Command::Wait { host, .. }
        | Command::Status { host, .. }
        | Command::Stdout { host, .. }
        | Command::Stderr { host, .. }
        | Command::Write { host, .. }
        | Command::CloseStdin { host, .. }
        | Command::Kill { host, .. }
        | Command::List { host, .. }
        | Command::Clean { host, .. }
        | Command::Ping { host, .. } => only(host.as_str()),
        Command::Deploy { hosts, .. } => {
            let mut v: Vec<String> = Vec::new();
            let mut i: usize = 0;
            assert(views(v@) =~= views(hosts@).take(0));
            while i < hosts.len()
                invariant
                    i <= hosts@.len(),
                    views(v@) == views(hosts@).take(i as int),
                decreases hosts@.len() - i,
            {
                push_arg(&mut v, hosts[i].as_str());
                i += 1;
                assert(views(v@) =~= views(hosts@).take(i as int));
            }
            assert(views(hosts@).take(i as int) =~= views(hosts@));
            v
        },
        Command::Put { remote, .. } | Command::Get { remote, .. } => {
            match split_host_path(remote.as_str()) {
                Some((h, _)) => only(h.as_str()),
                None => {
                    let v: Vec<String> = Vec::new();
                    assert(views(v@) =~= Seq::<Seq<char>>::empty());
                    v
                },
            }
        },
        Command::Daemon { .. } | Command::Cache { .. } | Command::Skill => {
            let v: Vec<String> = Vec::new();
            assert(views(v@) =~= Seq::<Seq<char>>::empty());
            v
        },
    }
}

/// `i` is the first of the hosts that can never be a destination.
pub open spec fn first_bad_host(hosts: Seq<Seq<char>>, i: int) -> bool {
    &&& 0 <= i < hosts.len()
    &&& host_fault(hosts[i]) is Some
    &&& forall|k: int| 0 <= k < i ==> host_fault(#[trigger] hosts[k]) is None
}

/// Every destination can be one.
pub open spec fn all_hosts_usable(hosts: Seq<Seq<char>>) -> bool {
    forall|k: int| 0 <= k < hosts.len() ==> host_fault(#[trigger] hosts[k]) is None
}

/// The arguments that every command shares can be used.
pub open spec fn usable(command: Command) -> bool {
    all_hosts_usable(hosts_of(command)) && (id_of(command) matches Some(id) ==> is_process_id(id))
}

/// `r` says why the arguments cannot be used: the first bad host, or else a
/// process ID that can name no process.
pub open spec fn says_unusable(command: Command, r: Response) -> bool {
    let hosts = hosts_of(command);
    if !all_hosts_usable(hosts) {
        exists|i: int| #[trigger]
            first_bad_host(hosts, i) && is_error(
                r,
                ErrorCode::BadHost,
                "invalid host "@ + debug_text(hosts[i]) + ": "@ + host_fault(hosts[i])->0,
                None,
            )
    } else {
        is_error(
            r,
            ErrorCode::InvalidProcessId,
            "invalid process ID: "@ + id_of(command)->0,
            None,
        )
    }
}

/// A call is refused exactly where a host that it names can never be one, or a process ID
/// that it names is not one; the first host at fault is told before the ID, and neither
/// is worth a retry.
pub proof fn lemma_unusable_call_is_refused(command: Command, r: Response)
    ensures
        usable(command) <==> (forall|k: int|
            0 <= k < hosts_of(command).len() ==> host_fault(#[trigger] hosts_of(command)[k]) is None)
            && (id_of(command) matches Some(id) ==> is_process_id(id)),
        says_unusable(command, r) ==> (r matches Response::Error { code, retryable, .. }
            && !retryable && (code == Some(ErrorCode::BadHost) <==> exists|k: int|
            0 <= k < hosts_of(command).len() && host_fault(#[trigger] hosts_of(command)[k]) is Some)
            && (code == Some(ErrorCode::BadHost) || code == Some(ErrorCode::InvalidProcessId))),
{
}

/// Refuse a call before anything is spawned: a destination that can never be a
/// host, or a process ID that is not one. Answering without a round trip matters:
/// against an unreachable host the reply would be worth a retry, and an agent
/// would retry a mistyped ID forever.
pub fn refuse_arguments(command: &Command) -> (r: Option<Response>)
    ensures
        r is None <==> usable(*command),
        r matches Some(resp) ==> says_unusable(*command, resp),
{
    let hosts = command_hosts(command);
    let ghost all = hosts_of(*command);
    let mut i: usize = 0;
    while i < hosts.len()
        invariant
            i <= hosts@.len(),
            views(hosts@) == all,
            all == hosts_of(*command),
            forall|k: int| 0 <= k < i ==> host_fault(#[trigger] all[k]) is None,
        decreases hosts@.len() - i,
    {
        assert(all[i as int] == hosts@[i as int]@);
        if let Err(e) = validate_host(hosts[i].as_str()) {
            let resp = Response::error_code(ErrorCode::BadHost, e.message().as_str());
            assert(first_bad_host(all, i as int));
            return Some(resp);
        }
        i += 1;
    }
    if let Some(id) = command_process_id(command) {
        if !is_valid_process_id(id) {
            return Some(
                Response::error_code(
                    ErrorCode::InvalidProcessId,
                    labelled("invalid process ID: ", id).as_str(),
                ),
            );
        }
    }
    None
}

// ---------------------------------------------------------------------------
// Where and how the object is printed
// ---------------------------------------------------------------------------

/// The object is what the command is for.
pub open spec fn object_is_product(command: Command) -> bool {
    !(command matches Command::Start { pipe, .. } && pipe)
}

/// Only a start that hands the process's own output to stdout keeps the object away
/// from it.
pub proof fn lemma_stdout_carries_the_product(command: Command)
    ensures
        !object_is_product(command) ==> (command matches Command::Start { pipe, .. } && pipe),
        command !is Start ==> object_is_product(command),
        command matches Command::Start { pipe, .. } ==> object_is_product(command) != pipe,
{
}

/// Whether this command's JSON object goes to stdout.
///
/// stdout carries the product. For almost every command the product is the
/// object itself; for `start --pipe` it is the remote process's bytes, so the
/// object goes to stderr and stdout stays byte-clean.
pub fn object_goes_to_stdout(command: &Command) -> (r: bool)
    ensures
        r == object_is_product(*command),
{
    match command {
        Command::Start { pipe, .. } => !*pipe,
        _ => true,
    }
}

/// `RX_JSON`, or the older `REM_EXEC_JSON`, as it is read.
pub open spec fn json_choice(rx: Option<Seq<char>>, older: Option<Seq<char>>) -> Option<Seq<char>> {
    match (rx, older) {
        (Some(v), _) => Some(lowered(trimmed(v))),
        (None, Some(v)) => Some(lowered(trimmed(v))),
        (None, None) => None,
    }
}

/// `RX_JSON`, or the older `REM_EXEC_JSON`, normalized.
pub fn json_env(rx_json: Option<&str>, rem_exec_json: Option<&str>) -> (r: Option<String>)
    ensures
        string_view(r) == json_choice(slice_view(rx_json), slice_view(rem_exec_json)),
{
    let value = match rx_json {
        Some(v) => v,
        None => match rem_exec_json {
            Some(v) => v,
            None => {
                return None;
            },
        },
    };
    Some(to_ascii_lowercase(trim(value).as_str()))
}

/// What the environment says, or else what the destination suggests.
pub open spec fn compact_by_default(env: Option<Seq<char>>, is_terminal: bool) -> bool {
    if env == Some("compact"@) {
        true
    } else if env == Some("pretty"@) {
        false
    } else {
        !is_terminal
    }
}

fn follows_destination(env: Option<&str>, is_terminal: bool) -> (r: bool)
    ensures
        r == compact_by_default(slice_view(env), is_terminal),
{
    proof {
        reveal_strlit("compact");
        reveal_strlit("pretty");
        assert("compact"@.len() == 7 && "pretty"@.len() == 6);
    }
    match env {
        Some(v) => {
            if same(v, "compact") {
                true
            } else if same(v, "pretty") {
                false
            } else {
                !is_terminal
            }
        },
        None => !is_terminal,
    }
}

/// The object is rendered compact.
pub open spec fn is_compact(
    compact: bool,
    pretty: bool,
    env: Option<Seq<char>>,
    is_terminal: bool,
) -> bool {
    compact || (!pretty && compact_by_default(env, is_terminal))
}

/// The nearest choice wins: a flag over the environment, the environment over the
/// destination; a terminal is for reading, anything else is not.
pub proof fn lemma_nearest_choice_wins(env: Option<Seq<char>>, is_terminal: bool)
    ensures
        is_compact(true, false, env, is_terminal),
        !is_compact(false, true, env, is_terminal),
        is_compact(false, false, Some("compact"@), is_terminal),
        !is_compact(false, false, Some("pretty"@), is_terminal),
        env != Some("compact"@) && env != Some("pretty"@) ==> is_compact(
            false,
            false,
            env,
            is_terminal,
        ) != is_terminal,
{
    reveal_strlit("compact");
    reveal_strlit("pretty");
    assert("compact"@.len() == 7 && "pretty"@.len() == 6);
}

/// The newer variable is read and the older one only where the newer is not set;
/// case and white space around the word do not matter.
pub proof fn lemma_newer_variable_is_read(a: Seq<char>, b: Option<Seq<char>>)
    ensures
        json_choice(Some(a), b) == json_choice(Some(a), None),
        json_choice(None, Some(a)) == json_choice(Some(a), None),
        json_choice(None, None) is None,
        json_choice(Some(a), b) matches Some(w) ==> w == lowered(trimmed(a)),
{
}

/// Whether to render JSON compact: an explicit flag, then the environment, then
/// whether stdout is a terminal. Pretty output is a courtesy to a person reading
/// one; a pipe or a file pays for it in bytes and gets nothing back.
pub fn compact_requested(
    compact: bool,
    pretty: bool,
    env: Option<&str>,
    stdout_is_terminal: bool,
) -> (r: bool)
    ensures
        r == is_compact(compact, pretty, slice_view(env), stdout_is_terminal),
{
    if compact {
        return true;
    }
    if pretty {
        return false;
    }
    follows_destination(env, stdout_is_terminal)
}

/// The first explicit choice among the raw arguments: compact or not.
pub open spec fn explicit_choice(args: Seq<Seq<char>>) -> Option<bool>
    decreases args.len(),
{
    if args.len() == 0 {
        None
    } else if args[0] == "--compact"@ {
        Some(true)
    } else if args[0] == "--pretty"@ {
        Some(false)
    } else {
        explicit_choice(args.skip(1))
    }
}

/// The object for a call that could not be parsed is compact.
pub open spec fn is_compact_on_stderr(
    args: Seq<Seq<char>>,
    env: Option<Seq<char>>,
    is_terminal: bool,
) -> bool {
    match explicit_choice(args) {
        Some(c) => c,
        None => compact_by_default(env, is_terminal),
    }
}

/// A word is one of the two flags.
pub open spec fn is_style_flag(word: Seq<char>) -> bool {
    word == "--compact"@ || word == "--pretty"@
}

/// The first of the two flags among the arguments decides, as it does for a call that
/// is parsed; without one the environment and the destination do.
pub proof fn lemma_first_flag_decides(
    args: Seq<Seq<char>>,
    i: int,
    env: Option<Seq<char>>,
    is_terminal: bool,
)
    requires
        0 <= i <= args.len(),
        forall|k: int| 0 <= k < i ==> !is_style_flag(#[trigger] args[k]),
        i < args.len() ==> is_style_flag(args[i]),
    ensures
        i < args.len() ==> is_compact_on_stderr(args, env, is_terminal) == (args[i]
            == "--compact"@),
        i == args.len() ==> is_compact_on_stderr(args, env, is_terminal) == is_compact(
            false,
            false,
            env,
            is_terminal,
        ),
    decreases i,
{
    reveal_strlit("--compact");
    reveal_strlit("--pretty");
    assert("--compact"@.len() == 9 && "--pretty"@.len() == 8);
    if i > 0 {
        let rest = args.skip(1);
        assert(!is_style_flag(args[0]));
        assert forall|k: int| 0 <= k < i - 1 implies !is_style_flag(#[trigger] rest[k]) by {
            assert(rest[k] == args[k + 1]);
        }
        if i < args.len() {
            assert(rest[i - 1] == args[i]);
        }
        lemma_first_flag_decides(rest, i - 1, env, is_terminal);
    }
}

/// Whether the object for a call that could not be parsed is compact. It goes to
/// stderr, so stderr is the destination it follows, and the explicit choice is
/// read off the raw arguments: parsing them is what failed.
pub fn compact_for_stderr(args: &Vec<String>, env: Option<&str>, stderr_is_terminal: bool) -> (r:
    bool)
    ensures
        r == is_compact_on_stderr(views(args@), slice_view(env), stderr_is_terminal),
{
    let mut i: usize = 0;
    assert(views(args@).skip(0) =~= views(args@));
    while i < args.len()
        invariant
            i <= args@.len(),
            explicit_choice(views(args@)) == explicit_choice(views(args@).skip(i as int)),
        decreases args@.len() - i,
    {
        proof {
            reveal_strlit("--compact");
            reveal_strlit("--pretty");
            assert(views(args@).skip(i as int)[0] == args@[i as int]@);
            assert(views(args@).skip(i as int).skip(1) =~= views(args@).skip(i + 1));
        }
        if same(args[i].as_str(), "--compact") {
            return true;
        }
        if same(args[i].as_str(), "--pretty") {
            return false;
        }
        i += 1;
    }
    follows_destination(env, stderr_is_terminal)
}

/// A line of output: the text and a newline.
pub fn write_line(text: &str) -> (r: String)
    ensures
        r@ == text@ + "\n"@,
{
    labelled(text, "\n")
}

/// What is said on stderr after output was written.
pub open spec fn output_complaint(result: Result<(), IoError>) -> Option<Seq<char>> {
    match result {
        Ok(()) => None,
        Err(e) => if e.kind is BrokenPipe {
            None
        } else {
            Some("rx: cannot write output: "@ + e.message@)
        },
    }
}

/// Nothing is said where all was written or the consumer hung up; any other failure
/// is, in the system's words.
pub proof fn lemma_lost_output_is_told(result: Result<(), IoError>)
    ensures
        result is Ok ==> output_complaint(result) is None,
        result matches Err(e) ==> (output_complaint(result) is None <==> e.kind is BrokenPipe),
        result matches Err(e) ==> (output_complaint(result) matches Some(m) ==> m.len()
            >= e.message@.len() && m.skip(m.len() - e.message@.len()) == e.message@),
{
    if let Err(e) = result {
        let m = "rx: cannot write output: "@ + e.message@;
        assert(m.skip(m.len() - e.message@.len()) =~= e.message@);
    }
}

/// What to say on stderr after output was written. A consumer that hung up is an
/// ordinary end of the output, not a failure: the exit status describes the
/// operation, not the consumer.
pub fn write_out(result: &Result<(), IoError>) -> (r: Option<String>)
    ensures
        string_view(r) == output_complaint(*result),
{
    match result {
        Ok(()) => None,
        Err(e) => match e.kind {
            crate::error::IoKind::BrokenPipe => None,
            _ => Some(labelled("rx: cannot write output: ", e.message.as_str())),
        },
    }
}

// ---------------------------------------------------------------------------
// The daemon
// ---------------------------------------------------------------------------

/// A value that opts in.
pub open spec fn is_truthy(v: Seq<char>) -> bool {
    let word = lowered(trimmed(v));
    word == "1"@ || word == "true"@ || word == "yes"@ || word == "on"@
}

/// Whether a value opts into the local daemon.
pub fn daemon_opt_in(value: Option<&str>) -> (r: bool)
    ensures
        r == (value matches Some(v) && is_truthy(v@)),
{
    match value {
        Some(v) => {
            let word = to_ascii_lowercase(trim(v).as_str());
            let w = word.as_str();
            same(w, "1") || same(w, "true") || same(w, "yes") || same(w, "on")
        },
        None => false,
    }
}

/// The caller opted into routing through the local daemon.
pub open spec fn is_opted_in(rx: Option<Seq<char>>, older: Option<Seq<char>>) -> bool {
    match rx {
        Some(v) => is_truthy(v),
        None => older matches Some(v) && is_truthy(v),
    }
}

/// Nobody is routed through the daemon who did not ask for it: without a variable
/// the direct route is taken, the newer variable decides alone where it is set, and
/// only these four words ask for it.
pub proof fn lemma_daemon_is_asked_for(v: Seq<char>, older: Option<Seq<char>>)
    ensures
        !is_opted_in(None, None),
        is_opted_in(Some(v), older) == is_opted_in(Some(v), None),
        is_opted_in(None, Some(v)) == is_opted_in(Some(v), None),
        is_opted_in(Some(v), older) <==> seq!["1"@, "true"@, "yes"@, "on"@].contains(
            lowered(trimmed(v)),
        ),
{
    let words = seq!["1"@, "true"@, "yes"@, "on"@];
    assert(words[0] == "1"@ && words[1] == "true"@ && words[2] == "yes"@ && words[3] == "on"@);
}

/// Whether the caller opted into routing through the local daemon, by
/// `RX_DAEMON` or the older `REM_EXEC_DAEMON`. Direct SSH is always the default,
/// so a daemon that merely happens to be running never reroutes commands.
pub fn daemon_enabled(rx_daemon: Option<&str>, rem_exec_daemon: Option<&str>) -> (r: bool)
    ensures
        r == is_opted_in(slice_view(rx_daemon), slice_view(rem_exec_daemon)),
{
    match rx_daemon {
        Some(v) => daemon_opt_in(Some(v)),
        None => daemon_opt_in(rem_exec_daemon),
    }
}

} // verus!
