//! The SSH boundary: which destinations are accepted, how `ssh` is invoked, and
//! what its failures mean.

use vstd::prelude::*;
use vstd::utf8::encode_utf8;

use crate::deploy::{not_deployed_response, DeployOpts, DeployPolicy, DeployStatus};
use crate::error::{labelled, IoError, RemExecError};
use crate::framing::{chunked, push_all, wire_of, write_framed, CHUNK_SIZE};
use crate::path::{join, joined_path};
use crate::protocol::{ErrorCode, Response};
use crate::text::{
    char_is_control, char_is_white, chars_of, contains, contains_text, debug_char, debug_text,
    from_utf8_lossy, is_control, is_white, lossy_text, lowered, quoted, quoted_char,
    to_ascii_lowercase, trim, trimmed, views,
};

verus! {

/// The remote binary path. Uses ~/.local/bin since it may not be on the
/// non-login SSH PATH.
pub const REMOTE_BIN: &'static str = ".local/bin/rxd";

// ---------------------------------------------------------------------------
// Destinations
// ---------------------------------------------------------------------------

/// The first control character of `s`.
pub open spec fn first_control(s: Seq<char>) -> Option<char>
    decreases s.len(),
{
    if s.len() == 0 {
        None
    } else if is_control(s[0]) {
        Some(s[0])
    } else {
        first_control(s.skip(1))
    }
}

/// The first white space character of `s`.
pub open spec fn first_white(s: Seq<char>) -> Option<char>
    decreases s.len(),
{
    if s.len() == 0 {
        None
    } else if is_white(s[0]) {
        Some(s[0])
    } else {
        first_white(s.skip(1))
    }
}

/// Why `host` can never be a destination.
pub open spec fn host_fault(host: Seq<char>) -> Option<Seq<char>> {
    if host.len() == 0 {
        Some("empty"@)
    } else if host[0] == '-' {
        Some("starts with '-', which OpenSSH parses as an option"@)
    } else if first_control(host) is Some {
        Some("contains a control character ("@ + debug_char(first_control(host)->0) + ")"@)
    } else if first_white(host) is Some {
        Some("contains whitespace ("@ + debug_char(first_white(host)->0) + ")"@)
    } else {
        None
    }
}

fn find_control(chars: &Vec<char>) -> (r: Option<char>)
    ensures
        r == first_control(chars@),
{
    let mut i: usize = 0;
    assert(chars@.skip(0) =~= chars@);
    while i < chars.len()
        invariant
            i <= chars@.len(),
            first_control(chars@) == first_control(chars@.skip(i as int)),
        decreases chars@.len() - i,
    {
        if char_is_control(chars[i]) {
            return Some(chars[i]);
        }
        assert(chars@.skip(i as int).skip(1) =~= chars@.skip(i + 1));
        i += 1;
    }
    None
}

fn find_white(chars: &Vec<char>) -> (r: Option<char>)
    ensures
        r == first_white(chars@),
{
    let mut i: usize = 0;
    assert(chars@.skip(0) =~= chars@);
    while i < chars.len()
        invariant
            i <= chars@.len(),
            first_white(chars@) == first_white(chars@.skip(i as int)),
        decreases chars@.len() - i,
    {
        if char_is_white(chars[i]) {
            return Some(chars[i]);
        }
        assert(chars@.skip(i as int).skip(1) =~= chars@.skip(i + 1));
        i += 1;
    }
    None
}

/// Reject destinations OpenSSH would read as options rather than as a host.
///
/// `ssh -oProxyCommand=…` runs an arbitrary local command, so a host string
/// that reaches argv unchecked is local code execution on the controller. Every
/// invocation also passes `--` before the destination, which is the actual
/// boundary; this check exists so an agent gets a typed `bad_host` instead of
/// an opaque OpenSSH message.
///
/// Deliberately permissive about shape: `user@host`, `ssh://user@host:port`,
/// bracketed IPv6 and ssh_config aliases all pass. It only rules out the forms
/// that are never a host.
pub fn validate_host(host: &str) -> (r: Result<(), RemExecError>)
    ensures
        match host_fault(host@) {
            None => r is Ok,
            Some(why) => r matches Err(RemExecError::BadHost(m)) && m@ == "invalid host "@
                + debug_text(host@) + ": "@ + why,
        },
{
    let chars = chars_of(host);
    let why: String = if chars.len() == 0 {
        "empty".to_owned()
    } else if chars[0] == '-' {
        "starts with '-', which OpenSSH parses as an option".to_owned()
    } else if let Some(c) = find_control(&chars) {
        let mut w = labelled("contains a control character (", quoted_char(c).as_str());
        w.append(")");
        w
    } else if let Some(c) = find_white(&chars) {
        let mut w = labelled("contains whitespace (", quoted_char(c).as_str());
        w.append(")");
        w
    } else {
        return Ok(());
    };
    let mut m = labelled("invalid host ", quoted(host).as_str());
    m.append(": ");
    m.append(why.as_str());
    Err(RemExecError::BadHost(m))
}

/// An accepted destination is not empty, is never shaped like an option, and
/// holds neither white space nor a control character.
pub proof fn lemma_accepted_host(host: Seq<char>)
    requires
        host_fault(host) is None,
    ensures
        host.len() > 0,
        host[0] != '-',
        forall|i: int|
            0 <= i < host.len() ==> !is_white(#[trigger] host[i]) && !is_control(host[i]),
{
    lemma_no_control(host);
    lemma_no_white(host);
}

/// A destination without those faults is accepted.
pub proof fn lemma_faultless_host(host: Seq<char>)
    requires
        host.len() > 0,
        host[0] != '-',
        forall|i: int|
            0 <= i < host.len() ==> !is_white(#[trigger] host[i]) && !is_control(host[i]),
    ensures
        host_fault(host) is None,
{
    lemma_no_control(host);
    lemma_no_white(host);
}

proof fn lemma_no_control(s: Seq<char>)
    ensures
        first_control(s) is None <==> forall|i: int| 0 <= i < s.len() ==> !is_control(#[trigger] s[i]),
    decreases s.len(),
{
    if s.len() > 0 {
        let t = s.skip(1);
        lemma_no_control(t);
        if first_control(s) is None {
            assert forall|i: int| 0 <= i < s.len() implies !is_control(#[trigger] s[i]) by {
                if i > 0 {
                    assert(s[i] == t[i - 1]);
                }
            }
        } else if !is_control(s[0]) {
            let i = choose|i: int| 0 <= i < t.len() && is_control(#[trigger] t[i]);
            assert(is_control(s[i + 1]));
        }
    }
}

proof fn lemma_no_white(s: Seq<char>)
    ensures
        first_white(s) is None <==> forall|i: int| 0 <= i < s.len() ==> !is_white(#[trigger] s[i]),
    decreases s.len(),
{
    if s.len() > 0 {
        let t = s.skip(1);
        lemma_no_white(t);
        if first_white(s) is None {
            assert forall|i: int| 0 <= i < s.len() implies !is_white(#[trigger] s[i]) by {
                if i > 0 {
                    assert(s[i] == t[i - 1]);
                }
            }
        } else if !is_white(s[0]) {
            let i = choose|i: int| 0 <= i < t.len() && is_white(#[trigger] t[i]);
            assert(is_white(s[i + 1]));
        }
    }
}

// ---------------------------------------------------------------------------
// Invocations
// ---------------------------------------------------------------------------

/// The options of every invocation: connection multiplexing where there is a
/// private place for its socket, nothing otherwise.
pub open spec fn ssh_options(control_path: Option<&str>) -> Seq<Seq<char>> {
    match control_path {
        Some(p) => seq![
            "-o"@,
            "ControlMaster=auto"@,
            "-o"@,
            "ControlPath="@ + p@,
            "-o"@,
            "ControlPersist=30"@,
        ],
        None => Seq::empty(),
    }
}

/// The arguments of `ssh` for `host`, before the remote command.
pub open spec fn ssh_args(host: Seq<char>, control_path: Option<&str>) -> Seq<Seq<char>> {
    ssh_options(control_path) + seq!["--"@, host]
}

/// Appends one argument.
pub(crate) fn push_arg(args: &mut Vec<String>, arg: &str)
    ensures
        views(final(args)@) == views(old(args)@).push(arg@),
{
    args.push(arg.to_owned());
    assert(views(args@) =~= views(old(args)@).push(arg@));
}

/// The arguments of an `ssh` invocation to `host`, with connection multiplexing
/// where there is a control path.
///
/// The destination is always preceded by `--`. That is the injection boundary
/// and it lives here, in the one place every SSH invocation goes through, so a
/// caller that forgets [`validate_host`] is still safe.
pub fn ssh_command(host: &str, control_path: Option<&str>) -> (r: Vec<String>)
    ensures
        views(r@) == ssh_args(host@, control_path),
{
    let mut args: Vec<String> = Vec::new();
    if let Some(p) = control_path {
        push_arg(&mut args, "-o");
        push_arg(&mut args, "ControlMaster=auto");
        push_arg(&mut args, "-o");
        push_arg(&mut args, labelled("ControlPath=", p).as_str());
        push_arg(&mut args, "-o");
        push_arg(&mut args, "ControlPersist=30");
    }
    push_arg(&mut args, "--");
    push_arg(&mut args, host);
    assert(views(args@) =~= ssh_args(host@, control_path));
    args
}

/// The first `--` of an invocation stands directly before the destination, and
/// what stands before it does not depend on the destination: whatever the host
/// text is, OpenSSH never reads it as an option.
pub proof fn lemma_destination_follows_terminator(host: Seq<char>, control_path: Option<&str>)
    ensures
        ({
            let args = ssh_args(host, control_path);
            let n = ssh_options(control_path).len() as int;
            &&& args.len() == n + 2
            &&& args[n] == "--"@
            &&& args[n + 1] == host
            &&& args.take(n) == ssh_options(control_path)
            &&& forall|i: int| 0 <= i < n ==> #[trigger] args[i] != "--"@
        }),
{
    reveal_strlit("--");
    reveal_strlit("-o");
    reveal_strlit("ControlMaster=auto");
    reveal_strlit("ControlPersist=30");
    reveal_strlit("ControlPath=");
    let args = ssh_args(host, control_path);
    let opts = ssh_options(control_path);
    let n = opts.len() as int;
    assert(args.take(n) =~= opts);
    assert("--"@.len() == 2 && "--"@[1] == '-');
    assert("-o"@[1] == 'o');
    assert("ControlMaster=auto"@.len() == 18);
    assert("ControlPersist=30"@.len() == 17);
    assert("ControlPath="@.len() == 12);
    assert forall|i: int| 0 <= i < n implies #[trigger] args[i] != "--"@ by {
        assert(args[i] == opts[i]);
    }
}

/// Options come in pairs, a switch and what it sets, and they ask for a connection
/// that is shared through the socket that was named and lives on for half a minute;
/// without a place for the socket nothing is asked for.
pub proof fn lemma_options_share_the_socket(socket: &str)
    ensures
        ssh_options(None).len() == 0,
        ssh_options(Some(socket)).len() == 6,
        forall|i: int|
            0 <= i < 6 && i % 2 == 0 ==> #[trigger] ssh_options(Some(socket))[i] == "-o"@,
        ssh_options(Some(socket)).contains("ControlMaster=auto"@),
        ssh_options(Some(socket)).contains("ControlPersist=30"@),
        ssh_options(Some(socket)).contains("ControlPath="@ + socket@),
{
    let o = ssh_options(Some(socket));
    assert(o[0] == "-o"@ && o[2] == "-o"@ && o[4] == "-o"@);
    assert(o[1] == "ControlMaster=auto"@);
    assert(o[3] == "ControlPath="@ + socket@);
    assert(o[5] == "ControlPersist=30"@);
}

/// The socket of a shared connection, below the private base directory.
pub open spec fn control_socket(base: Seq<char>) -> Seq<char> {
    joined_path(joined_path(base, "ssh"@), "cm-%C"@)
}

/// The directory for shared-connection sockets.
pub fn control_dir(base: &str) -> (r: String)
    ensures
        r@ == joined_path(base@, "ssh"@),
{
    join(base, "ssh")
}

/// The control path for connections.
pub open spec fn control_of(base: Seq<char>, private: bool) -> Option<Seq<char>> {
    if private {
        Some(control_socket(base))
    } else {
        None
    }
}

/// A connection is shared only through a socket in a directory that is known to be
/// private, below the user's own base directory, one for each destination.
pub proof fn lemma_sockets_are_private(base: Seq<char>)
    ensures
        control_of(base, false) is None,
        control_of(base, true) matches Some(p) && crate::path::final_component(p) == Some("cm-%C"@)
            && p == joined_path(base, "ssh"@) + "/cm-%C"@,
{
    reveal_strlit("cm-%C");
    reveal_strlit("/cm-%C");
    reveal_strlit("ssh");
    let name = "cm-%C"@;
    assert forall|i: int| 0 <= i < name.len() implies name[i] != '/' by {
        assert(name[0] == 'c' && name[1] == 'm' && name[2] == '-' && name[3] == '%' && name[4]
            == 'C');
    }
    assert(!name.contains('/'));
    assert(name[0] == 'c');
    let dir = joined_path(base, "ssh"@);
    assert("ssh"@[0] == 's' && "ssh"@[2] == 'h');
    assert(dir.last() == 'h');
    crate::path::lemma_joined_name(dir, name);
    assert(control_socket(base) =~= dir + "/cm-%C"@);
}

/// The control path for connections, once its directory is known to be private;
/// no multiplexing otherwise.
pub fn control_path(base: &str, private: bool) -> (r: Option<String>)
    ensures
        crate::text::string_view(r) == control_of(base@, private),
{
    if private {
        Some(join(control_dir(base).as_str(), "cm-%C"))
    } else {
        None
    }
}

/// The arguments of an `ssh` invocation that runs rxd with these words.
pub open spec fn remote_words(
    host: Seq<char>,
    control_path: Option<&str>,
    words: Seq<Seq<char>>,
) -> Seq<Seq<char>> {
    ssh_args(host, control_path) + seq![REMOTE_BIN@] + words
}

/// The words of a remote command stand behind the host, rxd first, each as it was
/// given and none besides.
pub proof fn lemma_remote_words_follow_the_host(
    host: Seq<char>,
    control_path: Option<&str>,
    words: Seq<Seq<char>>,
)
    ensures
        ({
            let all = remote_words(host, control_path, words);
            let n = all.len() - words.len();
            &&& all.skip(n) == words
            &&& all[n - 1] == REMOTE_BIN@
            &&& all[n - 2] == host
            &&& all[n - 3] == "--"@
            &&& all.take(n - 3) == ssh_options(control_path)
        }),
{
    let all = remote_words(host, control_path, words);
    let n = all.len() - words.len();
    assert(all.skip(n) =~= words);
    assert(all.take(n - 3) =~= ssh_options(control_path));
}

/// The words that follow a stream of a process.
pub open spec fn follow_words(id: Seq<char>, stream: Seq<char>) -> Seq<Seq<char>> {
    seq!["follow"@, id, stream]
}

/// The words that pipe to the stdin of a process.
pub open spec fn pipe_words(id: Seq<char>, no_close: bool) -> Seq<Seq<char>> {
    if no_close {
        seq!["pipe-stdin"@, id, "--no-close"@]
    } else {
        seq!["pipe-stdin"@, id]
    }
}

/// The words name the process, and the stream where one is followed; stdin is left
/// open only where that is said. No two of these commands are taken for each other.
pub proof fn lemma_words_say_what_is_piped(
    a: Seq<char>,
    b: Seq<char>,
    s: Seq<char>,
    t: Seq<char>,
    x: bool,
    y: bool,
)
    ensures
        follow_words(a, s) == follow_words(b, t) ==> a == b && s == t,
        pipe_words(a, x) == pipe_words(b, y) ==> a == b && x == y,
        follow_words(a, s) != pipe_words(b, x),
        pipe_words(a, x)[1] == a && follow_words(a, s)[1] == a && follow_words(a, s)[2] == s,
        pipe_words(a, x).contains("--no-close"@) <==> x || a == "--no-close"@,
{
    reveal_strlit("follow");
    reveal_strlit("pipe-stdin");
    reveal_strlit("--no-close");
    assert("follow"@.len() == 6 && "pipe-stdin"@.len() == 10);
    assert("pipe-stdin"@[0] == 'p' && "--no-close"@[0] == '-');
    let f = follow_words(a, s);
    let g = follow_words(b, t);
    let p = pipe_words(a, x);
    let q = pipe_words(b, y);
    let o = pipe_words(b, x);
    assert(f[0] == "follow"@ && f[1] == a && f[2] == s);
    assert(g[1] == b && g[2] == t);
    assert(p[0] == "pipe-stdin"@ && p[1] == a && q[1] == b && o[0] == "pipe-stdin"@);
    if x {
        assert(p[2] == "--no-close"@);
    }
    assert(p.len() == 3 <==> x);
    assert(q.len() == 3 <==> y);
}

/// The arguments of an `ssh` invocation that runs rxd with `args`.
pub fn remote_command(host: &str, control_path: Option<&str>, args: &RemoteArgs) -> (r: Vec<String>)
    ensures
        views(r@) == remote_words(host@, control_path, args.words()),
{
    let mut argv = ssh_command(host, control_path);
    push_arg(&mut argv, REMOTE_BIN);
    let ghost head = views(argv@);
    let mut i: usize = 0;
    while i < args.args.len()
        invariant
            i <= args.args@.len(),
            views(argv@) == head + args.words().take(i as int),
        decreases args.args@.len() - i,
    {
        push_arg(&mut argv, args.args[i].as_str());
        i += 1;
        assert(views(argv@) =~= head + args.words().take(i as int));
    }
    assert(args.words().take(i as int) =~= args.words());
    assert(views(argv@) =~= ssh_args(host@, control_path) + seq![REMOTE_BIN@] + args.words());
    argv
}

/// Raw-streaming rxd argument builders (follow, pipe-stdin), the `version`
/// bootstrap and `serve`. Structured actions go through `serve`.
#[derive(Debug)]
pub struct RemoteArgs {
    args: Vec<String>,
}

impl RemoteArgs {
    /// The arguments.
    pub closed spec fn words(self) -> Seq<Seq<char>> {
        views(self.args@)
    }

    /// `rxd version`
    pub fn version() -> (r: Self)
        ensures
            r.words() == seq!["version"@],
    {
        let mut args: Vec<String> = Vec::new();
        push_arg(&mut args, "version");
        assert(views(args@) =~= seq!["version"@]);
        RemoteArgs { args }
    }

    /// `rxd serve`
    pub fn serve() -> (r: Self)
        ensures
            r.words() == seq!["serve"@],
    {
        let mut args: Vec<String> = Vec::new();
        push_arg(&mut args, "serve");
        assert(views(args@) =~= seq!["serve"@]);
        RemoteArgs { args }
    }

    /// `rxd follow ID stdout`
    pub fn follow(id: &str) -> (r: Self)
        ensures
            r.words() == follow_words(id@, "stdout"@),
    {
        Self::follow_stream(id, "stdout")
    }

    /// `rxd follow ID STREAM`
    pub fn follow_stream(id: &str, stream: &str) -> (r: Self)
        ensures
            r.words() == follow_words(id@, stream@),
    {
        let mut args: Vec<String> = Vec::new();
        push_arg(&mut args, "follow");
        push_arg(&mut args, id);
        push_arg(&mut args, stream);
        assert(views(args@) =~= seq!["follow"@, id@, stream@]);
        RemoteArgs { args }
    }

    /// `rxd pipe-stdin ID [--no-close]`
    pub fn pipe_stdin(id: &str, no_close: bool) -> (r: Self)
        ensures
            r.words() == pipe_words(id@, no_close),
    {
        let mut args: Vec<String> = Vec::new();
        push_arg(&mut args, "pipe-stdin");
        push_arg(&mut args, id);
        if no_close {
            push_arg(&mut args, "--no-close");
            assert(views(args@) =~= seq!["pipe-stdin"@, id@, "--no-close"@]);
        } else {
            assert(views(args@) =~= seq!["pipe-stdin"@, id@]);
        }
        RemoteArgs { args }
    }

    /// The arguments as string slices.
    pub fn as_str_slice(&self) -> (r: Vec<&str>)
        ensures
            r@.len() == self.words().len(),
            forall|i: int| 0 <= i < r@.len() ==> (#[trigger] r@[i])@ == self.words()[i],
    {
        let mut out: Vec<&str> = Vec::new();
        let mut i: usize = 0;
        while i < self.args.len()
            invariant
                i <= self.args@.len(),
                out@.len() == i,
                forall|k: int| 0 <= k < i ==> (#[trigger] out@[k])@ == self.words()[k],
            decreases self.args@.len() - i,
        {
            out.push(self.args[i].as_str());
            i += 1;
        }
        out
    }
}

// ---------------------------------------------------------------------------
// Failures
// ---------------------------------------------------------------------------

/// Text that says authentication failed.
pub open spec fn says_auth(s: Seq<char>) -> bool {
    contains_text(s, "permission denied"@) || contains_text(s, "too many authentication failures"@)
        || contains_text(s, "no supported authentication methods"@)
}

/// Text that says the host could not be reached.
pub open spec fn says_unreachable(s: Seq<char>) -> bool {
    contains_text(s, "connection refused"@) || contains_text(s, "could not resolve"@)
        || contains_text(s, "name or service not known"@) || contains_text(s, "no route to host"@)
        || contains_text(s, "network is unreachable"@) || contains_text(s, "connection timed out"@)
        || contains_text(s, "operation timed out"@)
}

/// What an OpenSSH failure text means, if it is clear.
pub open spec fn ssh_failure(stderr: Seq<char>) -> Option<ErrorCode> {
    let s = lowered(stderr);
    if says_auth(s) {
        Some(ErrorCode::SshAuth)
    } else if says_unreachable(s) {
        Some(ErrorCode::SshUnreachable)
    } else {
        None
    }
}

/// The phrases by which a failed authentication is known.
pub open spec fn auth_phrases() -> Seq<Seq<char>> {
    seq![
        "permission denied"@,
        "too many authentication failures"@,
        "no supported authentication methods"@,
    ]
}

/// The phrases by which a host that cannot be reached is known.
pub open spec fn unreachable_phrases() -> Seq<Seq<char>> {
    seq![
        "connection refused"@,
        "could not resolve"@,
        "name or service not known"@,
        "no route to host"@,
        "network is unreachable"@,
        "connection timed out"@,
        "operation timed out"@,
    ]
}

/// One of the phrases stands in the text.
pub open spec fn holds_phrase(s: Seq<char>, phrases: Seq<Seq<char>>) -> bool {
    exists|i: int| 0 <= i < phrases.len() && contains_text(s, #[trigger] phrases[i])
}

/// What SSH says decides, whatever its case: a phrase of authentication is a failed
/// authentication, with or without another; else a phrase of the network is a host
/// that cannot be reached; and a text without either is neither.
pub proof fn lemma_failure_is_what_ssh_says(stderr: Seq<char>)
    ensures
        ssh_failure(stderr) == Some(ErrorCode::SshAuth) <==> holds_phrase(
            lowered(stderr),
            auth_phrases(),
        ),
        ssh_failure(stderr) == Some(ErrorCode::SshUnreachable) <==> holds_phrase(
            lowered(stderr),
            unreachable_phrases(),
        ) && !holds_phrase(lowered(stderr), auth_phrases()),
        ssh_failure(stderr) is None <==> !holds_phrase(lowered(stderr), auth_phrases())
            && !holds_phrase(lowered(stderr), unreachable_phrases()),
        ssh_failure(lowered(stderr)) == ssh_failure(stderr),
        ssh_failure(stderr) matches Some(code) ==> hint_for(code) is Some,
{
    let a = auth_phrases();
    assert(a[0] == "permission denied"@ && a[1] == "too many authentication failures"@ && a[2]
        == "no supported authentication methods"@);
    let u = unreachable_phrases();
    assert(u[0] == "connection refused"@ && u[1] == "could not resolve"@ && u[2]
        == "name or service not known"@ && u[3] == "no route to host"@ && u[4]
        == "network is unreachable"@ && u[5] == "connection timed out"@ && u[6]
        == "operation timed out"@);
    assert(lowered(lowered(stderr)) =~= lowered(stderr)) by {
        assert forall|i: int| 0 <= i < stderr.len() implies lowered(lowered(stderr))[i] == lowered(
            stderr,
        )[i] by {
            crate::text::lemma_lowered(stderr, i);
        }
    }
}

/// Every transport failure has a hint of its own, and nothing else has one.
pub proof fn lemma_transport_hints(code: ErrorCode)
    ensures
        hint_for(code) is Some <==> code == ErrorCode::SshUnreachable || code == ErrorCode::SshAuth,
        hint_for(ErrorCode::SshUnreachable) != hint_for(ErrorCode::SshAuth),
{
    reveal_strlit("check the name and the network with `ssh HOST true`, then retry");
    reveal_strlit("make `ssh HOST true` work first: load the key with `ssh-add`, or fix ssh_config");
    assert("check the name and the network with `ssh HOST true`, then retry"@[0] == 'c');
    assert("make `ssh HOST true` work first: load the key with `ssh-add`, or fix ssh_config"@[0]
        == 'm');
}

/// Classify an OpenSSH transport failure from its stderr text into a typed
/// [`ErrorCode`] the CLI can surface as JSON, so agents branch on `code` for
/// connectivity and authentication failures the same way they do for rxd-side
/// errors.
///
/// Authentication is unambiguous when present, so it comes first. Matching is
/// on whole phrases only: a remote command's own output is merged into this
/// text, and a false positive here suppresses auto-deploy. Text that does not
/// clearly say either stays untyped rather than mislabeled.
pub fn classify_ssh_failure(stderr: &str) -> (r: Option<ErrorCode>)
    ensures
        r == ssh_failure(stderr@),
{
    let lower = to_ascii_lowercase(stderr);
    let s = lower.as_str();
    if contains(s, "permission denied") || contains(s, "too many authentication failures")
        || contains(s, "no supported authentication methods") {
        return Some(ErrorCode::SshAuth);
    }
    if contains(s, "connection refused") || contains(s, "could not resolve") || contains(
        s,
        "name or service not known",
    ) || contains(s, "no route to host") || contains(s, "network is unreachable") || contains(
        s,
        "connection timed out",
    ) || contains(s, "operation timed out") {
        return Some(ErrorCode::SshUnreachable);
    }
    None
}

/// The fix that a transport failure's hint names.
pub open spec fn hint_for(code: ErrorCode) -> Option<Seq<char>> {
    match code {
        ErrorCode::SshUnreachable => Some(
            "check the name and the network with `ssh HOST true`, then retry"@,
        ),
        ErrorCode::SshAuth => Some(
            "make `ssh HOST true` work first: load the key with `ssh-add`, or fix ssh_config"@,
        ),
        _ => None,
    }
}

/// The hint of a transport failure. It belongs to the code, so that every
/// command that reports the failure names the same fix.
pub fn transport_hint(code: ErrorCode) -> (r: Option<&'static str>)
    ensures
        match hint_for(code) {
            Some(h) => r matches Some(s) && s@ == h,
            None => r is None,
        },
{
    match code {
        ErrorCode::SshUnreachable => Some(
            "check the name and the network with `ssh HOST true`, then retry",
        ),
        ErrorCode::SshAuth => Some(
            "make `ssh HOST true` work first: load the key with `ssh-add`, or fix ssh_config",
        ),
        _ => None,
    }
}

// ---------------------------------------------------------------------------
// One request, one response
// ---------------------------------------------------------------------------

/// What is written to `rxd serve`: the request line, a newline, the body.
pub open spec fn request_bytes(line: Seq<char>, body: Seq<u8>) -> Seq<u8> {
    encode_utf8(line) + seq![0x0au8] + body
}

/// The bytes of one request: its JSON line, then the raw body. The body never
/// passes through a shell or an encoding.
pub fn serve_request(line: &str, body: &[u8]) -> (r: Vec<u8>)
    ensures
        r@ == request_bytes(line@, body@),
{
    let mut out: Vec<u8> = Vec::new();
    push_all(&mut out, line.as_bytes());
    out.push(0x0a);
    push_all(&mut out, body);
    assert(out@ =~= request_bytes(line@, body@));
    out
}

/// The bytes of a request whose body is framed, so that the receiver can tell a
/// finished stream from a severed one without knowing the length in advance.
pub fn serve_request_framed(line: &str, src: &[u8]) -> (r: Vec<u8>)
    ensures
        r@ == request_bytes(line@, wire_of(chunked(src@, CHUNK_SIZE as nat))),
{
    let mut body: Vec<u8> = Vec::new();
    write_framed(src, &mut body);
    assert(body@ =~= wire_of(chunked(src@, CHUNK_SIZE as nat)));
    serve_request(line, &body)
}

/// What an `ssh` process left behind.
#[derive(Debug)]
pub struct SshOutput {
    pub success: bool,
    /// The exit status as it is shown.
    pub status: String,
    pub stdout: Vec<u8>,
    pub stderr: Vec<u8>,
}

/// `r` is the text of the answer that an `ssh` process left behind.
pub open spec fn is_answer_text(r: Result<String, RemExecError>, output: SshOutput) -> bool {
    if !output.success {
        r matches Err(RemExecError::Ssh(m)) && m@ == "SSH exited with "@ + output.status@ + ": "@
            + lossy_text(output.stderr@)
    } else {
        let text = trimmed(lossy_text(output.stdout@));
        if text.len() == 0 {
            r matches Err(RemExecError::Ssh(m)) && m@ == "empty response from remote"@
        } else {
            r matches Ok(s) && s@ == text
        }
    }
}

/// An answer is taken only from an invocation that succeeded and said something, and
/// it is then what was said, but for white space around it; what a failed invocation
/// wrote to stderr is in the error, so that its cause can be told.
pub proof fn lemma_answer_is_what_was_said(r: Result<String, RemExecError>, output: SshOutput)
    requires
        is_answer_text(r, output),
    ensures
        r is Ok <==> output.success && trimmed(lossy_text(output.stdout@)).len() > 0,
        r matches Ok(s) ==> s@ == trimmed(lossy_text(output.stdout@)),
        r matches Err(e) ==> e is Ssh,
        !output.success ==> (r matches Err(RemExecError::Ssh(m)) && contains_text(
            m@,
            lossy_text(output.stderr@),
        )),
{
    if !output.success {
        let said = lossy_text(output.stderr@);
        let m = "SSH exited with "@ + output.status@ + ": "@ + said;
        let i = m.len() - said.len();
        assert(m.subrange(i, i + said.len()) =~= said);
        assert(crate::text::occurs_at(m, said, i));
    }
}

/// Validate an `ssh` invocation that answers with one JSON object, and give the
/// text of that object.
pub fn parse_serve_output(output: &SshOutput) -> (r: Result<String, RemExecError>)
    ensures
        is_answer_text(r, *output),
{
    if !output.success {
        let mut m = labelled("SSH exited with ", output.status.as_str());
        m.append(": ");
        m.append(from_utf8_lossy(&output.stderr).as_str());
        return Err(RemExecError::Ssh(m));
    }
    let text = trim(from_utf8_lossy(&output.stdout).as_str());
    if text.as_str().is_empty() {
        return Err(RemExecError::Ssh("empty response from remote".to_owned()));
    }
    Ok(text)
}

/// The error for an answer that is not the JSON of a response.
pub fn undecodable(e: &str, text: &str) -> (r: RemExecError)
    ensures
        r matches RemExecError::Protocol(m) && m@ == "invalid JSON from remote: "@ + e@ + ": "@
            + text@,
{
    let mut m = labelled("invalid JSON from remote: ", e);
    m.append(": ");
    m.append(text);
    RemExecError::Protocol(m)
}

/// What comes of one request.
pub open spec fn outcome_of(
    answer: Result<Response, RemExecError>,
    written: Result<(), IoError>,
) -> Result<Response, RemExecError> {
    match answer {
        Err(e) => Err(e),
        Ok(resp) => if resp is Error || written is Ok {
            Ok(resp)
        } else {
            Err(RemExecError::Io(written->Err_0))
        },
    }
}

/// No answer is made up or altered: what comes back is the answer, or the failure to
/// write. Success is believed only where all of the body was written, and what the
/// host says of a failure is never hidden by one of ours.
pub proof fn lemma_success_needs_the_whole_body(
    answer: Result<Response, RemExecError>,
    written: Result<(), IoError>,
)
    ensures
        outcome_of(answer, written) matches Ok(r) ==> answer == Ok::<Response, RemExecError>(r)
            && (r !is Error ==> written is Ok),
        written is Ok ==> outcome_of(answer, written) == answer,
        answer is Err ==> outcome_of(answer, written) == answer,
        (answer matches Ok(r) && r is Error) ==> outcome_of(answer, written) == answer,
        (answer matches Ok(r) && r !is Error) ==> (written matches Err(e) ==> outcome_of(
            answer,
            written,
        ) == Err::<Response, RemExecError>(RemExecError::Io(e))),
{
}

/// The result of one request, from the answer and from how writing the body
/// went.
///
/// Body-write failures are deliberately not fatal on their own. When rxd
/// answers early and exits, it closes the pipe and our write dies partway
/// through a large body. That is a symptom; rxd's typed response (or ssh's
/// stderr) is the actual cause. Only an answer that claims success cannot be
/// trusted once the body did not fully arrive.
pub fn serve_with_body(
    answer: Result<Response, RemExecError>,
    written: Result<(), IoError>,
) -> (r: Result<Response, RemExecError>)
    ensures
        r == outcome_of(answer, written),
{
    match answer {
        Err(e) => Err(e),
        Ok(resp) => {
            let explained = matches!(resp, Response::Error { .. });
            match written {
                Ok(()) => Ok(resp),
                Err(e) => if explained {
                    Ok(resp)
                } else {
                    Err(RemExecError::Io(e))
                },
            }
        },
    }
}

// ---------------------------------------------------------------------------
// Deploying during another command
// ---------------------------------------------------------------------------

/// What to do next about a request whose rxd may be missing.
#[derive(Debug)]
pub enum AutoStep {
    /// This is the result.
    Finish(Result<Response, RemExecError>),
    /// Probe the host's version; the request failed with this.
    Probe(RemExecError),
    /// Deploy with these options; the request failed with this.
    Deploy { error: RemExecError, opts: DeployOpts },
    /// Send the request once more; its result is final.
    Retry,
}

/// `r` follows the first attempt.
pub open spec fn auto_begun(first: Result<Response, RemExecError>, r: AutoStep) -> bool {
    match first {
        Ok(resp) => r == AutoStep::Finish(Ok(resp)),
        Err(e) => if ssh_failure(e.text()) is Some {
            r == AutoStep::Finish(Err(e))
        } else {
            r == AutoStep::Probe(e)
        },
    }
}

/// What to do after the first attempt. A clear connectivity or authentication
/// failure is not a deploy problem and is the result; otherwise the usual cause
/// is a missing or outdated rxd, and the stable `version` command gives a
/// precise verdict.
pub fn serve_request_auto_deploy(first: Result<Response, RemExecError>) -> (r: AutoStep)
    ensures
        auto_begun(first, r),
{
    match first {
        Ok(resp) => AutoStep::Finish(Ok(resp)),
        Err(e) => {
            if classify_ssh_failure(e.message().as_str()).is_some() {
                AutoStep::Finish(Err(e))
            } else {
                AutoStep::Probe(e)
            }
        },
    }
}

/// `r` follows the probe.
pub open spec fn auto_probed(
    host: Seq<char>,
    error: RemExecError,
    status: DeployStatus,
    policy: DeployPolicy,
    r: AutoStep,
) -> bool {
    if status is Current || status is Unknown {
        r == AutoStep::Finish(Err(error))
    } else if policy !is Off {
        r == (AutoStep::Deploy {
            error,
            opts: DeployOpts {
                binary: None,
                allow_fetch: policy is On,
                allow_downgrade: false,
            },
        })
    } else {
        r matches AutoStep::Finish(Ok(resp)) && crate::protocol::is_error(
            resp,
            ErrorCode::NotDeployed,
            crate::deploy::not_deployed_text(host, status),
            Some(crate::deploy::not_deployed_hint(host)),
        )
    }
}

/// What to do after the probe: with a current rxd, or with none that can be
/// told, the failure stands; otherwise the host is deployed to where the policy
/// says so, and reported as not deployed where it does not.
pub fn auto_deploy_after_probe(
    host: &str,
    error: RemExecError,
    status: DeployStatus,
    policy: DeployPolicy,
) -> (r: AutoStep)
    ensures
        auto_probed(host@, error, status, policy, r),
{
    match status {
        DeployStatus::Current { .. } | DeployStatus::Unknown => AutoStep::Finish(Err(error)),
        _ => {
            if policy.implicit_deploy() {
                AutoStep::Deploy { error, opts: DeployOpts::for_policy(policy) }
            } else {
                AutoStep::Finish(Ok(not_deployed_response(host, &status)))
            }
        },
    }
}

/// What is said of an auto-deploy that failed.
pub open spec fn auto_deploy_text(
    host: Seq<char>,
    fault: RemExecError,
    original: RemExecError,
) -> Seq<char> {
    "auto-deploy to "@ + host + " failed: "@ + fault.text() + " (original: "@ + original.text()
        + ")"@
}

/// The message tells the host, the failure of the deploy, and the failure that it was
/// meant to mend as the original one.
pub proof fn lemma_auto_deploy_failure_tells_both(
    host: Seq<char>,
    fault: RemExecError,
    original: RemExecError,
)
    ensures
        contains_text(auto_deploy_text(host, fault, original), "auto-deploy to "@ + host),
        contains_text(auto_deploy_text(host, fault, original), "failed: "@ + fault.text()),
        contains_text(auto_deploy_text(host, fault, original), "original: "@ + original.text()),
{
    reveal_strlit(" failed: ");
    reveal_strlit("failed: ");
    reveal_strlit(" ");
    reveal_strlit(" (original: ");
    reveal_strlit(" (");
    reveal_strlit("original: ");
    assert(" failed: "@ =~= " "@ + "failed: "@);
    assert(" (original: "@ =~= " ("@ + "original: "@);
    let none = Seq::<char>::empty();
    let t = auto_deploy_text(host, fault, original);
    let a = "auto-deploy to "@ + host;
    let end = " (original: "@ + original.text() + ")"@;
    assert(t =~= none + a + (" failed: "@ + fault.text() + end));
    crate::text::lemma_part_occurs(none, a, " failed: "@ + fault.text() + end);
    assert(t =~= (a + " "@) + ("failed: "@ + fault.text()) + end);
    crate::text::lemma_part_occurs(a + " "@, "failed: "@ + fault.text(), end);
    let front = a + " failed: "@ + fault.text() + " ("@;
    assert(t =~= front + ("original: "@ + original.text()) + ")"@);
    crate::text::lemma_part_occurs(front, "original: "@ + original.text(), ")"@);
}

/// The error of an auto-deploy that failed: both what went wrong with it and
/// what it was meant to repair.
pub fn auto_deploy_failed(host: &str, fault: &RemExecError, original: &RemExecError) -> (r:
    RemExecError)
    ensures
        r matches RemExecError::Ssh(m) && m@ == auto_deploy_text(host@, *fault, *original),
{
    let mut m = labelled("auto-deploy to ", host);
    m.append(" failed: ");
    m.append(fault.message().as_str());
    m.append(" (original: ");
    m.append(original.message().as_str());
    m.append(")");
    RemExecError::Ssh(m)
}

/// `r` follows the deploy.
pub open spec fn auto_deployed(
    host: Seq<char>,
    error: RemExecError,
    deployed: Result<(), RemExecError>,
    r: AutoStep,
) -> bool {
    match deployed {
        Ok(()) => r is Retry,
        Err(fault) => r matches AutoStep::Finish(Err(RemExecError::Ssh(m))) && m@
            == auto_deploy_text(host, fault, error),
    }
}

/// What to do after the deploy: retry once, or report both failures.
pub fn auto_deploy_after_deploy(
    host: &str,
    error: RemExecError,
    deployed: Result<(), RemExecError>,
) -> (r: AutoStep)
    ensures
        auto_deployed(host@, error, deployed, r),
{
    match deployed {
        Ok(()) => AutoStep::Retry,
        Err(fault) => AutoStep::Finish(Err(auto_deploy_failed(host, &fault, &error))),
    }
}

/// What came of a step.
#[derive(Debug)]
pub enum AutoEvent {
    /// What the host said to the probe.
    Probed(DeployStatus),
    /// The host was deployed to, or could not be.
    Deployed(Result<(), RemExecError>),
    /// The request was sent once more.
    Sent(Result<Response, RemExecError>),
}

/// The event is one that the step waits for.
pub open spec fn auto_fits(step: AutoStep, event: AutoEvent) -> bool {
    match step {
        AutoStep::Finish(_) => false,
        AutoStep::Probe(_) => event is Probed,
        AutoStep::Deploy { .. } => event is Deployed,
        AutoStep::Retry => event is Sent,
    }
}

/// `r` follows a step and what came of it.
pub open spec fn auto_stepped(
    host: Seq<char>,
    policy: DeployPolicy,
    step: AutoStep,
    event: AutoEvent,
    r: AutoStep,
) -> bool {
    match event {
        AutoEvent::Probed(status) => step matches AutoStep::Probe(error) && auto_probed(
            host,
            error,
            status,
            policy,
            r,
        ),
        AutoEvent::Deployed(deployed) => step matches AutoStep::Deploy { error, .. }
            && auto_deployed(host, error, deployed, r),
        AutoEvent::Sent(result) => step is Retry && r == AutoStep::Finish(result),
    }
}

/// What to do after a step: the result of the second attempt is final.
pub fn auto_deploy_next(host: &str, policy: DeployPolicy, step: AutoStep, event: AutoEvent) -> (r:
    AutoStep)
    requires
        auto_fits(step, event),
    ensures
        auto_stepped(host@, policy, step, event, r),
{
    match (step, event) {
        (AutoStep::Probe(error), AutoEvent::Probed(status)) => auto_deploy_after_probe(
            host,
            error,
            status,
            policy,
        ),
        (AutoStep::Deploy { error, .. }, AutoEvent::Deployed(deployed)) => auto_deploy_after_deploy(
            host,
            error,
            deployed,
        ),
        (AutoStep::Retry, AutoEvent::Sent(result)) => AutoStep::Finish(result),
        // No other pair fits.
        (step, _) => step,
    }
}

/// Event `i` leads from step `i` to the next one.
pub open spec fn auto_linked(
    host: Seq<char>,
    policy: DeployPolicy,
    steps: Seq<AutoStep>,
    events: Seq<AutoEvent>,
    i: int,
) -> bool {
    auto_fits(steps[i], events[i]) && auto_stepped(host, policy, steps[i], events[i], steps[i + 1])
}

/// The steps that a request goes through after its first attempt.
pub open spec fn auto_run(
    host: Seq<char>,
    policy: DeployPolicy,
    first: Result<Response, RemExecError>,
    steps: Seq<AutoStep>,
    events: Seq<AutoEvent>,
) -> bool {
    &&& steps.len() == events.len() + 1
    &&& auto_begun(first, steps[0])
    &&& forall|i: int|
        0 <= i < events.len() ==> #[trigger] auto_linked(host, policy, steps, events, i)
}

/// A request is sent at most once more, and a host is deployed to at most once
/// for it. The deploy comes only where the first attempt failed, not for want of a
/// connection, where the probe found rxd missing or incompatible, and where the
/// policy permits it; the second attempt only after a deploy that succeeded; and
/// its result is final.
pub proof fn lemma_request_is_retried_once(
    host: Seq<char>,
    policy: DeployPolicy,
    first: Result<Response, RemExecError>,
    steps: Seq<AutoStep>,
    events: Seq<AutoEvent>,
    i: int,
)
    requires
        auto_run(host, policy, first, steps, events),
        0 <= i < steps.len(),
    ensures
        steps[i] is Probe ==> i == 0 && (first matches Err(e) && ssh_failure(e.text()) is None),
        steps[i] is Deploy ==> i == 1 && steps[0] is Probe && policy !is Off && (events[0]
            matches AutoEvent::Probed(status) && (status is Missing || status is Incompatible)),
        steps[i] is Retry ==> i == 2 && steps[1] is Deploy && (events[1]
            matches AutoEvent::Deployed(Ok(_))),
        steps[i] is Finish ==> i == steps.len() - 1,
        i == 3 ==> (events[2] matches AutoEvent::Sent(result) && steps[3] == AutoStep::Finish(
            result,
        )),
        i <= 3,
{
    if events.len() > 0 {
        assert(auto_linked(host, policy, steps, events, 0));
    }
    if events.len() > 1 {
        assert(auto_linked(host, policy, steps, events, 1));
    }
    if events.len() > 2 {
        assert(auto_linked(host, policy, steps, events, 2));
    }
    if events.len() > 3 {
        assert(auto_linked(host, policy, steps, events, 3));
    }
}

/// Nothing is done about a request that was answered: its answer is the result. Nor
/// about one that failed for want of a connection, or on a host whose rxd is current
/// or cannot be told: its failure is the result. A host that lacks rxd is reported as
/// such under a policy that leaves hosts alone; under any other it is deployed to,
/// from the cache alone unless downloads are permitted, and never back to an older
/// version.
pub proof fn lemma_auto_deploy_leaves_answers_alone(
    host: Seq<char>,
    policy: DeployPolicy,
    first: Result<Response, RemExecError>,
    error: RemExecError,
    status: DeployStatus,
    begun: AutoStep,
    probed: AutoStep,
)
    requires
        auto_begun(first, begun),
        auto_probed(host, error, status, policy, probed),
    ensures
        first is Ok ==> begun == AutoStep::Finish(first),
        (first matches Err(e) && ssh_failure(e.text()) is Some) ==> begun == AutoStep::Finish(first),
        begun matches AutoStep::Probe(e) ==> first == Err::<Response, RemExecError>(e),
        status is Current || status is Unknown ==> probed == AutoStep::Finish(
            Err::<Response, RemExecError>(error),
        ),
        (status is Missing || status is Incompatible) && policy is Off ==> (probed
            matches AutoStep::Finish(Ok(Response::Error { code, hint, .. })) && code == Some(
            ErrorCode::NotDeployed,
        ) && hint is Some),
        (status is Missing || status is Incompatible) && policy !is Off ==> (probed
            matches AutoStep::Deploy { error: e, opts } && e == error && opts.binary is None && (
        opts.allow_fetch <==> policy is On) && !opts.allow_downgrade),
{
}

} // verus!
