//! Moving files: what `put` and `get` send, check and answer.

use vstd::prelude::*;

use crate::cli::errors::{
    explain_old_rxd, is_explained, is_local_io_error, local_io_error_json, parse_mode,
};
use crate::cli::{host_path, split_host_path};
use crate::deploy::{
    behind_own, is_older_than_own, should_auto_deploy, suggests_deploy, DeployOpts, DeployPolicy,
    DeployStatus,
};
use crate::error::{labelled, IoError, IoKind, RemExecError};
use crate::number::{decimal, render_u64};
use crate::path::{directory, directory_of, join, joined_path};
use crate::process::{hex_encode, hex_text};
use crate::protocol::{
    error_with_hint, is_error, mode_of, octal_mode, octal_text, parse_octal_mode, ErrorCode, Request,
    Response,
};
use crate::ssh::{auto_deploy_failed, auto_deploy_text};
use crate::text::{debug_text, quoted, same, slice_view, string_view, trim, trimmed};

verus! {

// ---------------------------------------------------------------------------
// Arguments
// ---------------------------------------------------------------------------

/// The mode argument can be used, where there is one.
pub open spec fn mode_usable(mode: Option<Seq<char>>) -> bool {
    mode matches Some(s) ==> mode_of(s) is Some
}

/// `m` is the mode that an argument asks for.
pub open spec fn is_mode(mode: Option<Seq<char>>, m: Option<u32>) -> bool {
    match mode {
        Some(s) => m is Some && mode_of(s) == Some(m->0 as int),
        None => m is None,
    }
}

/// `r` rejects a mode argument.
pub open spec fn rejects_mode(r: Response, s: Seq<char>) -> bool {
    is_error(
        r,
        ErrorCode::BadRequest,
        "invalid --mode '"@ + s + "' (expected octal like 0644)"@,
        None,
    )
}

fn mode_argument(mode: Option<&str>) -> (r: Result<Option<u32>, Response>)
    ensures
        mode_usable(slice_view(mode)) ==> (r matches Ok(m) && is_mode(slice_view(mode), m)),
        !mode_usable(slice_view(mode)) ==> (r matches Err(resp) && rejects_mode(
            resp,
            slice_view(mode)->0,
        )),
{
    match mode {
        Some(s) => match parse_mode(s) {
            Ok(m) => Ok(Some(m)),
            Err(e) => Err(Response::error_code(ErrorCode::BadRequest, e.as_str())),
        },
        None => Ok(None),
    }
}

/// A transfer whose arguments can be used.
#[derive(Debug)]
pub struct Transfer {
    pub host: String,
    pub path: String,
    pub mode: Option<u32>,
}

/// `r` is what the arguments of a transfer come to: a destination first, then a
/// mode, each rejected where it cannot be used.
pub open spec fn is_transfer(
    r: Result<Transfer, Response>,
    remote: Seq<char>,
    mode: Option<Seq<char>>,
    label: Seq<char>,
    hint: Seq<char>,
) -> bool {
    match host_path(remote) {
        None => r matches Err(resp) && is_error(
            resp,
            ErrorCode::BadRequest,
            label + debug_text(remote) + " is not HOST:PATH"@,
            Some(hint),
        ),
        Some((h, p)) => if mode_usable(mode) {
            r matches Ok(t) && t.host@ == h && t.path@ == p && is_mode(mode, t.mode)
        } else {
            r matches Err(resp) && rejects_mode(resp, mode->0)
        },
    }
}

/// A transfer goes to the host in front of the first colon and to the path behind it,
/// and a mode that is written in octal is the mode that is asked for. Without such a
/// destination, or with a mode that is none, the caller is at fault.
pub proof fn lemma_transfer_is_what_was_asked(
    r: Result<Transfer, Response>,
    host: Seq<char>,
    path: Seq<char>,
    mode: Option<u32>,
    label: Seq<char>,
    hint: Seq<char>,
)
    requires
        !host.contains(':') && host.len() > 0 && path.len() > 0,
        is_transfer(
            r,
            host + seq![':'] + path,
            match mode {
                Some(m) => Some(octal_text(m as int)),
                None => None,
            },
            label,
            hint,
        ),
    ensures
        r matches Ok(t) && t.host@ == host && t.path@ == path && (match mode {
            Some(m) => t.mode == Some((m as int % 4096) as u32),
            None => t.mode is None,
        }),
{
    crate::cli::lemma_host_and_path(host, path);
    if let Some(m) = mode {
        crate::protocol::lemma_octal_roundtrip(m);
    }
}

/// Arguments that cannot be used are refused as the caller's mistake.
pub proof fn lemma_bad_transfer_is_refused(
    r: Result<Transfer, Response>,
    remote: Seq<char>,
    mode: Option<Seq<char>>,
    label: Seq<char>,
    hint: Seq<char>,
)
    requires
        is_transfer(r, remote, mode, label, hint),
    ensures
        r is Ok <==> host_path(remote) is Some && (mode matches Some(s) ==> mode_of(s) is Some),
        r matches Err(resp) ==> (resp matches Response::Error { code, .. } && code == Some(
            ErrorCode::BadRequest,
        )),
{
}

fn transfer(remote: &str, mode: Option<&str>, label: &str, hint: &str) -> (r: Result<
    Transfer,
    Response,
>)
    ensures
        is_transfer(r, remote@, slice_view(mode), label@, hint@),
{
    match split_host_path(remote) {
        None => {
            let mut text = labelled(label, quoted(remote).as_str());
            text.append(" is not HOST:PATH");
            Err(error_with_hint(ErrorCode::BadRequest, text.as_str(), hint))
        },
        Some((host, path)) => match mode_argument(mode) {
            Ok(m) => Ok(Transfer { host, path, mode: m }),
            Err(resp) => Err(resp),
        },
    }
}

// ---------------------------------------------------------------------------
// Deploying on the way
// ---------------------------------------------------------------------------

/// Whether a transfer that failed is worth deploying for: the options, where the
/// policy permits it and the failure suggests it.
pub fn retry_with_deploy(e: &RemExecError, policy: DeployPolicy) -> (r: Option<DeployOpts>)
    ensures
        r is Some <==> (policy !is Off && suggests_deploy(*e)),
        r matches Some(opts) ==> opts == policy_opts(policy),
{
    if policy.implicit_deploy() && should_auto_deploy(e) {
        Some(DeployOpts::for_policy(policy))
    } else {
        None
    }
}

/// The options of a deploy that a policy permits on the way.
pub open spec fn policy_opts(policy: DeployPolicy) -> DeployOpts {
    DeployOpts { binary: None, allow_fetch: policy is On, allow_downgrade: false }
}

/// A deploy on the way pushes a release of this version, downloads only where that is
/// permitted, and never takes a host back to an older version.
pub proof fn lemma_policy_limits_a_deploy(policy: DeployPolicy)
    ensures
        policy_opts(policy).binary is None,
        policy_opts(policy).allow_fetch <==> policy is On,
        !policy_opts(policy).allow_downgrade,
{
}

/// What a transfer that can be repeated wants done next.
#[derive(Debug)]
pub enum AttemptPhase {
    /// Try it.
    First,
    /// Deploy to the host with these options.
    Deploy(DeployOpts),
    /// Try it once more.
    Second,
    /// Nothing: there is an outcome.
    Finished,
}

/// What came of the last phase.
#[derive(Debug)]
pub enum AttemptEvent {
    /// The transfer was tried.
    Tried(Result<Response, RemExecError>),
    /// The host was deployed to, or could not be.
    Deployed(Result<(), RemExecError>),
}

/// A transfer that can be repeated: of a local file, which every attempt opens
/// anew, or of a remote one.
#[derive(Debug)]
pub struct Attempts {
    pub host: String,
    pub policy: DeployPolicy,
    pub phase: AttemptPhase,
    /// Why the first attempt failed, once it is deployed for.
    pub failure: Option<RemExecError>,
    pub outcome: Option<Result<Response, RemExecError>>,
}

/// The event is one that the phase waits for.
pub open spec fn attempt_fits(phase: AttemptPhase, event: AttemptEvent) -> bool {
    match phase {
        AttemptPhase::First | AttemptPhase::Second => event is Tried,
        AttemptPhase::Deploy(_) => event is Deployed,
        AttemptPhase::Finished => false,
    }
}

/// What an event does to a transfer.
pub open spec fn attempted(a0: Attempts, event: AttemptEvent, a1: Attempts) -> bool {
    &&& a1.host == a0.host && a1.policy == a0.policy
    &&& match event {
        AttemptEvent::Tried(result) => match result {
            Err(e) if a0.phase is First && a0.policy !is Off && suggests_deploy(e) => a1.phase
                == AttemptPhase::Deploy(policy_opts(a0.policy)) && a1.failure == Some(e)
                && a1.outcome is None,
            _ => a1.phase is Finished && a1.failure == a0.failure && a1.outcome == Some(result),
        },
        AttemptEvent::Deployed(Ok(())) => a1.phase is Second && a1.failure == a0.failure
            && a1.outcome is None,
        AttemptEvent::Deployed(Err(fault)) => a1.phase is Finished && a1.failure == a0.failure
            && (a1.outcome matches Some(Err(RemExecError::Ssh(m))) && m@ == auto_deploy_text(
            a0.host@,
            fault,
            a0.failure->0,
        )),
    }
}

impl Attempts {
    /// There is an outcome when all is done, and a deploy only for a failure and
    /// where the policy permits it.
    pub open spec fn wf(self) -> bool {
        &&& self.phase is Finished <==> self.outcome is Some
        &&& self.phase is Deploy ==> self.failure is Some && self.policy !is Off
    }

    /// Begin a transfer.
    pub fn begin(host: &str, policy: DeployPolicy) -> (r: Self)
        ensures
            r.wf(),
            r.phase is First,
            r.host@ == host@,
            r.policy == policy,
            r.failure is None,
    {
        Attempts {
            host: host.to_owned(),
            policy,
            phase: AttemptPhase::First,
            failure: None,
            outcome: None,
        }
    }

    /// One step of a transfer: it is tried, and tried once more after a deploy
    /// where that is called for.
    pub fn step(&mut self, event: AttemptEvent)
        requires
            old(self).wf(),
            attempt_fits(old(self).phase, event),
        ensures
            final(self).wf(),
            attempted(*old(self), event, *final(self)),
    {
        match event {
            AttemptEvent::Tried(Ok(response)) => {
                self.phase = AttemptPhase::Finished;
                self.outcome = Some(Ok(response));
            },
            AttemptEvent::Tried(Err(e)) => {
                if matches!(self.phase, AttemptPhase::First) {
                    if let Some(opts) = retry_with_deploy(&e, self.policy) {
                        self.phase = AttemptPhase::Deploy(opts);
                        self.failure = Some(e);
                        return;
                    }
                }
                self.phase = AttemptPhase::Finished;
                self.outcome = Some(Err(e));
            },
            AttemptEvent::Deployed(Ok(())) => {
                self.phase = AttemptPhase::Second;
            },
            AttemptEvent::Deployed(Err(fault)) => {
                if let Some(e) = &self.failure {
                    let error = auto_deploy_failed(self.host.as_str(), &fault, e);
                    self.phase = AttemptPhase::Finished;
                    self.outcome = Some(Err(error));
                }
            },
        }
    }
}

/// Step `i` leads from state `i` to the next one.
pub open spec fn attempts_linked(
    states: Seq<Attempts>,
    events: Seq<AttemptEvent>,
    i: int,
) -> bool {
    states[i].wf() && attempt_fits(states[i].phase, events[i]) && attempted(
        states[i],
        events[i],
        states[i + 1],
    )
}

/// The states that a transfer goes through.
pub open spec fn attempts_run(states: Seq<Attempts>, events: Seq<AttemptEvent>) -> bool {
    &&& states.len() == events.len() + 1
    &&& states[0].phase is First
    &&& forall|i: int| 0 <= i < events.len() ==> #[trigger] attempts_linked(states, events, i)
}

/// A transfer is tried at most twice. The second attempt, whose result is final,
/// comes only after a deploy that succeeded; and a host is deployed to only where
/// the policy permits it and the first failure suggests it.
pub proof fn lemma_transfer_is_retried_once(
    states: Seq<Attempts>,
    events: Seq<AttemptEvent>,
    i: int,
)
    requires
        attempts_run(states, events),
        0 < i < states.len(),
    ensures
        states[i].phase !is First,
        states[i].phase is Deploy ==> i == 1 && states[0].policy !is Off && (events[0]
            matches AttemptEvent::Tried(Err(e)) && suggests_deploy(e)),
        states[i].phase is Second ==> i == 2 && states[1].phase is Deploy && (events[1]
            matches AttemptEvent::Deployed(Ok(_))),
        states[i].phase is Finished ==> i == states.len() - 1,
{
    assert(attempts_linked(states, events, 0));
    if events.len() > 1 {
        assert(attempts_linked(states, events, 1));
    }
    if events.len() > 2 {
        assert(attempts_linked(states, events, 2));
    }
    if events.len() > 3 {
        assert(attempts_linked(states, events, 3));
    }
}

/// What comes of an attempt is passed on as it is: an answer always, a failure unless it
/// is deployed for, and the result of the second attempt in any case. A deploy that
/// failed is an error that tells both failures.
pub proof fn lemma_attempt_is_passed_on(a0: Attempts, event: AttemptEvent, a1: Attempts)
    requires
        a0.wf(),
        attempt_fits(a0.phase, event),
        attempted(a0, event, a1),
    ensures
        (event matches AttemptEvent::Tried(result) && result is Ok) ==> (event
            matches AttemptEvent::Tried(result) && a1.outcome == Some(result)),
        event matches AttemptEvent::Tried(result) ==> (a0.phase is Second ==> a1.outcome == Some(
            result,
        )),
        event matches AttemptEvent::Tried(Err(e)) ==> (a0.phase is First ==> if a0.policy !is Off
            && suggests_deploy(e) {
            a1.phase is Deploy && a1.failure == Some(e)
        } else {
            a1.outcome == Some(Err::<Response, RemExecError>(e))
        }),
        a1.phase matches AttemptPhase::Deploy(opts) ==> opts == policy_opts(a0.policy),
        (event matches AttemptEvent::Deployed(Ok(_))) ==> a1.phase is Second,
        (event matches AttemptEvent::Deployed(Err(_))) ==> (a1.outcome matches Some(Err(e)) && e
            is Ssh),
        a1.host == a0.host && a1.policy == a0.policy,
{
}

/// The answer to a stream of stdin is passed on, but for an rxd that is too old for it,
/// and a failure is passed on as it is; a deploy that failed ends the transfer before a
/// byte of stdin is read.
pub proof fn lemma_stdin_answer_is_passed_on(p0: StdinPut, event: StdinEvent, p1: StdinPut)
    requires
        p0.wf(),
        stdin_fits(p0.phase, event),
        stdin_stepped(p0, event, p1),
    ensures
        event matches StdinEvent::Answered(Ok(resp)) ==> (resp !is Error ==> p1.outcome == Some(
            Ok::<Response, RemExecError>(resp),
        )),
        event matches StdinEvent::Answered(Err(e)) ==> p1.outcome == Some(
            Err::<Response, RemExecError>(e),
        ),
        (event matches StdinEvent::Deployed(Err(_))) ==> p1.phase is Finished && (p1.outcome
            matches Some(Err(e)) && e is Ssh),
        event matches StdinEvent::Probed(status) ==> (p1.phase is Deploy <==> stdin_needs_deploy(
            status,
        )) && (p1.phase is Stream <==> !stdin_needs_deploy(status)),
        p1.phase matches StdinPhase::Deploy(opts) ==> opts == policy_opts(p0.policy),
        p1.request == p0.request && p1.host == p0.host && p1.policy == p0.policy,
{
}

// ---------------------------------------------------------------------------
// Put
// ---------------------------------------------------------------------------
// ---------------------------------------------------------------------------
// Put
// ---------------------------------------------------------------------------

/// The arguments of `put`.
pub fn do_put(remote: &str, mode: Option<&str>) -> (r: Result<Transfer, Response>)
    ensures
        is_transfer(
            r,
            remote@,
            slice_view(mode),
            "destination "@,
            "write it as one argument, e.g. `rx put ./app.conf host:/etc/app.conf`"@,
        ),
{
    transfer(
        remote,
        mode,
        "destination ",
        "write it as one argument, e.g. `rx put ./app.conf host:/etc/app.conf`",
    )
}

/// Whether `put` reads stdin instead of a file.
pub fn reads_stdin(local: &str) -> (r: bool)
    ensures
        r == (local@ == "-"@),
{
    same(local, "-")
}

/// `r` asks for a file of this size to be written.
pub open spec fn is_put(
    r: Request,
    to: Seq<char>,
    length: u64,
    bits: Option<u32>,
    user: Option<Seq<char>>,
    members: Option<Seq<char>>,
) -> bool {
    r matches Request::Put { path, size, mode, owner, group } && path@ == to && size == Some(length)
        && mode == bits && string_view(owner) == user && string_view(group) == members
}

/// Two such requests are the same request only where every part of them is: neither
/// the size, the mode, the owner nor the group is lost or taken for another.
pub proof fn lemma_put_says_everything(
    r: Request,
    p: Seq<char>,
    q: Seq<char>,
    m: u64,
    n: u64,
    a: Option<u32>,
    b: Option<u32>,
    u: Option<Seq<char>>,
    v: Option<Seq<char>>,
    g: Option<Seq<char>>,
    h: Option<Seq<char>>,
)
    requires
        is_put(r, p, m, a, u, g),
        is_put(r, q, n, b, v, h),
    ensures
        p == q && m == n && a == b && u == v && g == h,
        r matches Request::Put { path, size, mode, owner, group } && path@ == p && size == Some(m)
            && mode == a && string_view(owner) == u && string_view(group) == g,
{
}

/// The request for a local file: it declares the size up front.
pub fn put_file(
    path: String,
    size: u64,
    mode: Option<u32>,
    owner: Option<String>,
    group: Option<String>,
) -> (r: Request)
    ensures
        r == (Request::Put { path, size: Some(size), mode, owner, group }),
        is_put(r, path@, size, mode, string_view(owner), string_view(group)),
{
    Request::Put { path, size: Some(size), mode, owner, group }
}

/// A host has to be deployed to before stdin is streamed to it. stdin cannot be
/// rewound, so an rxd that may not know streamed uploads is settled first; one
/// that is ahead already knows them, and is never downgraded.
pub open spec fn stdin_needs_deploy(status: DeployStatus) -> bool {
    match status {
        DeployStatus::Current { version } => behind_own(version@),
        DeployStatus::Unknown => false,
        _ => true,
    }
}

/// Whether a host has to be deployed to before stdin is streamed to it.
pub fn needs_deploy_for_stdin(status: &DeployStatus) -> (r: bool)
    ensures
        r == stdin_needs_deploy(*status),
{
    match status {
        DeployStatus::Current { version } => is_older_than_own(version.as_str()),
        DeployStatus::Unknown => false,
        _ => true,
    }
}

/// The error of a deploy before streaming that failed.
pub fn stdin_deploy_failed(host: &str, fault: &RemExecError) -> (r: RemExecError)
    ensures
        r matches RemExecError::Ssh(m) && m@ == "auto-deploy to "@ + host@ + " failed: "@
            + fault.text(),
{
    let mut m = labelled("auto-deploy to ", host);
    m.append(" failed: ");
    m.append(fault.message().as_str());
    RemExecError::Ssh(m)
}

/// `r` refuses to stream a terminal.
pub open spec fn refuses_terminal(r: Response) -> bool {
    is_error(
        r,
        ErrorCode::BadRequest,
        "`rx put -` reads the file from stdin, but stdin is a terminal — pipe something into it, or pass a path instead of `-` (./- for a file named `-`)"@,
        Some(
            "pipe a producer into `rx put -`, e.g. `rxv get host/secret | rx put - host:/path`"@,
        ),
    )
}

/// What a transfer of stdin wants done next.
#[derive(Debug)]
pub enum StdinPhase {
    /// Probe the host's version.
    Probe,
    /// Deploy to the host with these options.
    Deploy(DeployOpts),
    /// Send the request, with stdin in frames behind it.
    Stream,
    /// Nothing: there is an outcome.
    Finished,
}

/// What came of the last phase.
#[derive(Debug)]
pub enum StdinEvent {
    /// What the host said to the probe.
    Probed(DeployStatus),
    /// The host was deployed to, or could not be.
    Deployed(Result<(), RemExecError>),
    /// The answer to the request.
    Answered(Result<Response, RemExecError>),
}

/// A transfer of stdin.
#[derive(Debug)]
pub struct StdinPut {
    pub host: String,
    pub policy: DeployPolicy,
    /// What is sent to the host.
    pub request: Request,
    pub phase: StdinPhase,
    pub outcome: Option<Result<Response, RemExecError>>,
}

/// The event is one that the phase waits for.
pub open spec fn stdin_fits(phase: StdinPhase, event: StdinEvent) -> bool {
    match phase {
        StdinPhase::Probe => event is Probed,
        StdinPhase::Deploy(_) => event is Deployed,
        StdinPhase::Stream => event is Answered,
        StdinPhase::Finished => false,
    }
}

/// What an event does to a transfer of stdin.
pub open spec fn stdin_stepped(p0: StdinPut, event: StdinEvent, p1: StdinPut) -> bool {
    &&& p1.host == p0.host && p1.policy == p0.policy && p1.request == p0.request
    &&& match event {
        StdinEvent::Probed(status) => p1.outcome is None && if stdin_needs_deploy(status) {
            p1.phase == StdinPhase::Deploy(policy_opts(p0.policy))
        } else {
            p1.phase is Stream
        },
        StdinEvent::Deployed(Ok(())) => p1.phase is Stream && p1.outcome is None,
        StdinEvent::Deployed(Err(fault)) => p1.phase is Finished && (p1.outcome matches Some(
            Err(RemExecError::Ssh(m)),
        ) && m@ == "auto-deploy to "@ + p0.host@ + " failed: "@ + fault.text()),
        StdinEvent::Answered(Ok(resp)) => p1.phase is Finished && (p1.outcome matches Some(Ok(r))
            && is_explained(p0.host@, resp, r)),
        StdinEvent::Answered(Err(e)) => p1.phase is Finished && p1.outcome == Some(
            Err::<Response, RemExecError>(e),
        ),
    }
}

/// `r` is a transfer of stdin before its first step.
pub open spec fn stdin_begun(
    r: StdinPut,
    to: Transfer,
    owner: Option<String>,
    group: Option<String>,
    allow_empty: bool,
    policy: DeployPolicy,
    is_terminal: bool,
) -> bool {
    &&& r.host == to.host
    &&& r.policy == policy
    &&& r.request == (Request::PutStream {
        path: to.path,
        mode: to.mode,
        owner,
        group,
        allow_empty,
    })
    &&& is_terminal ==> r.phase is Finished && (r.outcome matches Some(Ok(resp))
        && refuses_terminal(resp))
    &&& !is_terminal && policy is Off ==> r.phase is Stream
    &&& !is_terminal && policy !is Off ==> r.phase is Probe
}

/// What is sent for stdin names the path, the mode, the owner and the group that were
/// asked for, each as such, and lets an empty file pass only where that was asked
/// for. Nothing is sent, nor is the host touched, where stdin is a terminal.
pub proof fn lemma_stdin_goes_where_it_was_asked(
    r: StdinPut,
    to: Transfer,
    user: Option<String>,
    members: Option<String>,
    empty: bool,
    policy: DeployPolicy,
    is_terminal: bool,
)
    requires
        stdin_begun(r, to, user, members, empty, policy, is_terminal),
    ensures
        r.host@ == to.host@,
        r.request matches Request::PutStream { path, mode, owner, group, allow_empty } && path@
            == to.path@ && mode == to.mode && string_view(owner) == string_view(user)
            && string_view(group) == string_view(members) && allow_empty == empty,
        r.phase is Finished <==> is_terminal,
        is_terminal ==> (r.outcome matches Some(Ok(Response::Error { code, .. })) && code == Some(
            ErrorCode::BadRequest,
        )),
        r.phase is Probe ==> policy !is Off,
        r.phase is Stream ==> policy is Off,
{
}

/// A host is deployed to before stdin is streamed where rxd is missing, speaks
/// another protocol or is older than this rx; one that is current, newer or cannot
/// be told is left as it is.
pub proof fn lemma_stdin_deploys_what_is_behind(status: DeployStatus)
    ensures
        status is Missing || status is Incompatible ==> stdin_needs_deploy(status),
        status is Unknown ==> !stdin_needs_deploy(status),
        status matches DeployStatus::Current { version } ==> (stdin_needs_deploy(status)
            <==> behind_own(version@)),
        status matches DeployStatus::Current { version } ==> (crate::deploy::ahead_of_own(version@)
            ==> !stdin_needs_deploy(status)),
{
    if let DeployStatus::Current { version } = status {
        crate::deploy::lemma_version_order(version@);
    }
}

/// Begin to stream stdin to a file. A terminal is refused before SSH is opened: it
/// is a caller's mistake. Under a policy that permits deploying on the way the
/// host is probed first; under any other the transfer runs once and reports why it
/// failed.
pub fn put_stdin(
    to: Transfer,
    owner: Option<String>,
    group: Option<String>,
    allow_empty: bool,
    policy: DeployPolicy,
    is_terminal: bool,
) -> (r: StdinPut)
    ensures
        r.wf(),
        stdin_begun(r, to, owner, group, allow_empty, policy, is_terminal),
{
    let request = Request::PutStream {
        path: to.path,
        mode: to.mode,
        owner,
        group,
        allow_empty,
    };
    let mut phase = StdinPhase::Stream;
    let mut outcome: Option<Result<Response, RemExecError>> = None;
    if is_terminal {
        phase = StdinPhase::Finished;
        outcome = Some(
            Ok(
                error_with_hint(
                    ErrorCode::BadRequest,
                    "`rx put -` reads the file from stdin, but stdin is a terminal — pipe something into it, or pass a path instead of `-` (./- for a file named `-`)",
                    "pipe a producer into `rx put -`, e.g. `rxv get host/secret | rx put - host:/path`",
                ),
            ),
        );
    } else if policy.implicit_deploy() {
        phase = StdinPhase::Probe;
    }
    StdinPut { host: to.host, policy, request, phase, outcome }
}

impl StdinPut {
    /// There is an outcome when all is done, and the host is probed or deployed to
    /// only where the policy permits it.
    pub open spec fn wf(self) -> bool {
        &&& self.phase is Finished <==> self.outcome is Some
        &&& self.phase is Probe || self.phase is Deploy ==> self.policy !is Off
    }

    /// One step of a transfer of stdin. There is no retry: stdin cannot be
    /// rewound, so what a retry would repair is settled before its first byte is
    /// read.
    pub fn step(&mut self, event: StdinEvent)
        requires
            old(self).wf(),
            stdin_fits(old(self).phase, event),
        ensures
            final(self).wf(),
            stdin_stepped(*old(self), event, *final(self)),
    {
        match event {
            StdinEvent::Probed(status) => {
                if needs_deploy_for_stdin(&status) {
                    self.phase = StdinPhase::Deploy(DeployOpts::for_policy(self.policy));
                } else {
                    self.phase = StdinPhase::Stream;
                }
            },
            StdinEvent::Deployed(Ok(())) => {
                self.phase = StdinPhase::Stream;
            },
            StdinEvent::Deployed(Err(fault)) => {
                let error = stdin_deploy_failed(self.host.as_str(), &fault);
                self.phase = StdinPhase::Finished;
                self.outcome = Some(Err(error));
            },
            StdinEvent::Answered(Ok(response)) => {
                let answer = explain_old_rxd(self.host.as_str(), response);
                self.phase = StdinPhase::Finished;
                self.outcome = Some(Ok(answer));
            },
            StdinEvent::Answered(Err(e)) => {
                self.phase = StdinPhase::Finished;
                self.outcome = Some(Err(e));
            },
        }
    }
}

/// Step `i` leads from state `i` to the next one.
pub open spec fn stdin_linked(states: Seq<StdinPut>, events: Seq<StdinEvent>, i: int) -> bool {
    states[i].wf() && stdin_fits(states[i].phase, events[i]) && stdin_stepped(
        states[i],
        events[i],
        states[i + 1],
    )
}

/// The states that a transfer of stdin goes through, from where [`put_stdin`]
/// leaves it.
pub open spec fn stdin_run(states: Seq<StdinPut>, events: Seq<StdinEvent>) -> bool {
    &&& states.len() == events.len() + 1
    &&& states[0].phase is Probe <==> (states[0].policy !is Off && states[0].phase !is Finished)
    &&& states[0].phase !is Deploy
    &&& forall|i: int| 0 <= i < events.len() ==> #[trigger] stdin_linked(states, events, i)
}

/// stdin is streamed only once the deploy question is settled, and at most once.
/// Where the policy permits deploying, the host was probed, and deployed to where
/// the probe called for it; where the policy does not, the host is neither probed
/// nor deployed to. Whatever comes of the streaming is final.
pub proof fn lemma_stdin_is_streamed_once(
    states: Seq<StdinPut>,
    events: Seq<StdinEvent>,
    i: int,
)
    requires
        stdin_run(states, events),
        0 <= i < states.len(),
    ensures
        states[i].phase is Stream ==> (if states[0].policy is Off {
            i == 0
        } else {
            &&& i == 1 || i == 2
            &&& events[0] matches StdinEvent::Probed(status) && (stdin_needs_deploy(status) <==> i
                == 2)
            &&& i == 2 ==> (events[1] matches StdinEvent::Deployed(Ok(_)))
        }),
        forall|j: int|
            0 <= j < states.len() && j != i && states[i].phase is Stream ==> (
            #[trigger] states[j]).phase !is Stream,
        states[i].phase is Probe || states[i].phase is Deploy ==> states[0].policy !is Off,
        states[i].phase is Finished ==> i == states.len() - 1,
{
    if events.len() > 0 {
        assert(stdin_linked(states, events, 0));
    }
    if events.len() > 1 {
        assert(stdin_linked(states, events, 1));
    }
    if events.len() > 2 {
        assert(stdin_linked(states, events, 2));
    }
    if events.len() > 3 {
        assert(stdin_linked(states, events, 3));
    }
}

// ---------------------------------------------------------------------------
// Staging a download
// ---------------------------------------------------------------------------

/// The arguments of `get`.
pub fn do_get(remote: &str, mode: Option<&str>) -> (r: Result<Transfer, Response>)
    ensures
        is_transfer(
            r,
            remote@,
            slice_view(mode),
            "source "@,
            "write it as one argument, e.g. `rx get host:/var/log/app.log ./app.log`"@,
        ),
{
    transfer(
        remote,
        mode,
        "source ",
        "write it as one argument, e.g. `rx get host:/var/log/app.log ./app.log`",
    )
}

/// The temp file of a download, beside its destination.
pub open spec fn get_temp(dir: Seq<char>, suffix: Seq<char>) -> Seq<char> {
    joined_path(dir, ".rxd-get-"@ + suffix + ".tmp"@)
}

/// The temp file of a download stands in the directory of its destination, and no two
/// suffixes name the same file.
pub proof fn lemma_download_is_staged_beside(dir: Seq<char>, a: Seq<char>, b: Seq<char>)
    requires
        !a.contains('/'),
        !b.contains('/'),
    ensures
        a != b ==> get_temp(dir, a) != get_temp(dir, b),
        dir.len() > 0 && dir.last() != '/' && crate::path::trimmed_directory(dir) == dir
            ==> directory_of(get_temp(dir, a)) == dir,
{
    reveal_strlit(".rxd-get-");
    reveal_strlit(".tmp");
    let na = ".rxd-get-"@ + a + ".tmp"@;
    let nb = ".rxd-get-"@ + b + ".tmp"@;
    assert(na[0] == '.' && na[1] == 'r' && nb[0] == '.');
    assert forall|i: int| 0 <= i < na.len() implies na[i] != '/' by {
        if 9 <= i < 9 + a.len() {
            assert(na[i] == a[i - 9]);
            assert(a.contains(a[i - 9]));
        } else if i < 9 {
            assert(na[i] == ".rxd-get-"@[i]);
        } else {
            assert(na[i] == ".tmp"@[i - 9 - a.len()]);
        }
    }
    assert(!na.contains('/'));
    crate::path::lemma_joined_directory(dir, na);
    if get_temp(dir, a) == get_temp(dir, b) {
        let p = get_temp(dir, a);
        let q = get_temp(dir, b);
        let k = p.len() - na.len();
        assert(p.skip(k) =~= na);
        assert(q.skip(k) =~= nb);
        assert(na.subrange(9, na.len() - 4) =~= a);
        assert(nb.subrange(9, nb.len() - 4) =~= b);
    }
}

/// The temp file of a download.
pub fn get_temp_path(dir: &str, suffix: &str) -> (r: String)
    ensures
        r@ == get_temp(dir@, suffix@),
{
    let mut name = labelled(".rxd-get-", suffix);
    name.append(".tmp");
    join(dir, name.as_str())
}

/// The directory a download is staged in.
pub fn staging_dir(dest: &str) -> (r: String)
    ensures
        r@ == directory_of(dest@),
{
    directory(dest)
}

/// A suffix that nobody can predict, from random bytes.
pub fn random_get_temp_suffix(a: &[u8], b: &[u8]) -> (r: String)
    ensures
        r@ == hex_text(a@) + hex_text(b@),
{
    labelled(hex_encode(a).as_str(), hex_encode(b).as_str())
}

/// How often a staging file is tried for.
pub const STAGING_ATTEMPTS: usize = 128;

/// The name is taken: something exists there, or it is a link that was not
/// followed.
pub fn is_get_temp_name_collision(e: &IoError, is_loop: bool) -> (r: bool)
    ensures
        r == (e.kind is AlreadyExists || is_loop),
{
    matches!(e.kind, IoKind::AlreadyExists) || is_loop
}

/// What follows an attempt to create a staging file.
#[derive(Debug)]
pub enum StagingStep {
    /// It exists.
    Created,
    /// Try another name.
    Again,
    /// Give up with this.
    Fail(IoError),
}

/// `r` follows attempt `attempt`.
pub open spec fn staged(
    r: StagingStep,
    attempt: usize,
    result: Result<(), (IoError, bool)>,
) -> bool {
    match result {
        Ok(()) => r is Created,
        Err((e, is_loop)) => if !(e.kind is AlreadyExists || is_loop) {
            r == StagingStep::Fail(e)
        } else if attempt < STAGING_ATTEMPTS {
            r is Again
        } else {
            r matches StagingStep::Fail(f) && f.kind is AlreadyExists && f.message@
                == "could not create a unique local staging file"@
        },
    }
}

/// A file that is already there is never written to: another name is tried, up to 128
/// of them. Any other failure is the result at once, as it is.
pub proof fn lemma_taken_names_are_left_alone(
    r: StagingStep,
    attempt: usize,
    result: Result<(), (IoError, bool)>,
)
    requires
        staged(r, attempt, result),
    ensures
        r is Created <==> result is Ok,
        r is Again <==> attempt < 128 && (result matches Err((e, is_loop)) && (e.kind
            is AlreadyExists || is_loop)),
        (result matches Err((e, is_loop)) && e.kind !is AlreadyExists && !is_loop) ==> (result
            matches Err((e, _)) && r == StagingStep::Fail(e)),
{
}

/// What follows attempt `attempt`, counted from one. A name that is taken is no
/// failure, until too many were.
pub fn create_get_temp(attempt: usize, result: Result<(), (IoError, bool)>) -> (r: StagingStep)
    ensures
        staged(r, attempt, result),
{
    match result {
        Ok(()) => StagingStep::Created,
        Err((e, is_loop)) => {
            if !is_get_temp_name_collision(&e, is_loop) {
                return StagingStep::Fail(e);
            }
            if attempt < STAGING_ATTEMPTS {
                StagingStep::Again
            } else {
                StagingStep::Fail(
                    IoError {
                        kind: IoKind::AlreadyExists,
                        message: "could not create a unique local staging file".to_owned(),
                    },
                )
            }
        },
    }
}

/// Why a download could not be staged or installed.
#[derive(Debug)]
pub enum ReceiveError {
    /// Fewer bytes arrived than declared.
    Incomplete { expected: u64, got: u64 },
    /// A local failure.
    Io(IoError),
}

/// What the staging of a download comes to.
pub open spec fn staged_bytes(copied: Result<u64, IoError>, size: u64) -> Result<
    u64,
    ReceiveError,
> {
    match copied {
        Ok(n) => if n == size {
            Ok(n)
        } else {
            Err(ReceiveError::Incomplete { expected: size, got: n })
        },
        Err(e) => Err(ReceiveError::Io(e)),
    }
}

/// A download is whole exactly where as many bytes were staged as were declared.
pub proof fn lemma_download_is_whole(copied: Result<u64, IoError>, size: u64)
    ensures
        staged_bytes(copied, size) is Ok <==> copied == Ok::<u64, IoError>(size),
        staged_bytes(copied, size) matches Ok(n) ==> n == size,
        staged_bytes(copied, size) matches Err(ReceiveError::Incomplete { expected, got })
            ==> expected == size && copied == Ok::<u64, IoError>(got) && got != size,
        copied is Err ==> !(staged_bytes(copied, size) matches Err(ReceiveError::Incomplete { .. })),
{
}

/// Whether the bytes that were staged are all that were declared.
pub fn receive_to_temp(copied: Result<u64, IoError>, size: u64) -> (r: Result<u64, ReceiveError>)
    ensures
        r == staged_bytes(copied, size),
{
    match copied {
        Ok(n) => {
            if n == size {
                Ok(n)
            } else {
                Err(ReceiveError::Incomplete { expected: size, got: n })
            }
        },
        Err(e) => Err(ReceiveError::Io(e)),
    }
}

// ---------------------------------------------------------------------------
// Get
// ---------------------------------------------------------------------------

/// How much is read after the declared bytes, to see whether there is more.
pub const DRAIN_CAP: u64 = 65536;

/// The first line of an answer, without its newline.
pub open spec fn header_of(line: Seq<u8>) -> Seq<u8> {
    if line.len() > 0 && line.last() == 0x0a {
        line.drop_last()
    } else {
        line
    }
}

/// A line is read with its newline or, at the end of the answer, without it: the
/// header is the same.
pub proof fn lemma_header_is_the_line(line: Seq<u8>)
    requires
        !line.contains(0x0au8),
    ensures
        header_of(line.push(0x0a)) == line,
        header_of(line) == line,
{
    assert(line.push(0x0a).drop_last() =~= line);
    if line.len() > 0 {
        assert(line.contains(line.last()));
    }
}

/// The first line of an answer, without its newline.
pub fn header_line(line: &[u8]) -> (r: Vec<u8>)
    ensures
        r@ == header_of(line@),
{
    let n: usize = line.len();
    let end: usize = if n > 0 && line[n - 1] == 0x0a {
        n - 1
    } else {
        n
    };
    let out = vstd::slice::slice_to_vec(vstd::slice::slice_subrange(line, 0, end));
    assert(out@ =~= header_of(line@));
    out
}

/// What a download wants done next.
#[derive(Debug, Clone, Copy, PartialEq, Eq, Structural)]
pub enum GetPhase {
    /// Read the first line of the answer.
    Header,
    /// Stage exactly this many bytes in a private temp file, and sync it.
    Receive { size: u64 },
    /// Read on a little, close the pipe, and wait for the remote end.
    Drain,
    /// Give the temp file this mode and rename it to the destination.
    Commit { mode: u32 },
    /// Remove the temp file, if there is one.
    Discard,
    /// Nothing: there is an outcome.
    Finished,
}

/// What came of the last phase.
#[derive(Debug)]
pub enum GetEvent {
    /// The answer could not be read.
    Unread(IoError),
    /// There was no answer; this is what ssh said.
    Silent(String),
    /// The first line is no response.
    Undecodable(String),
    /// The first line of the answer.
    Header(Response),
    /// The staged bytes, or a local failure.
    Received(Result<u64, IoError>),
    /// How much more there was, and whether the remote end exited well.
    Ended { extra: u64, success: bool },
    /// The remote end could not be waited for.
    NotEnded(IoError),
    /// The temp file was renamed, or could not be.
    Committed(Result<(), IoError>),
    /// The temp file was removed, or could not be.
    Removed,
}

/// One download.
#[derive(Debug)]
pub struct Download {
    pub path: String,
    pub local: String,
    /// The mode that was asked for.
    pub mode_override: Option<u32>,
    pub phase: GetPhase,
    /// The mode that the file gets.
    pub applied: u32,
    pub bytes: u64,
    pub outcome: Option<Result<Response, RemExecError>>,
}

/// The event is one that the phase waits for.
pub open spec fn get_fits(phase: GetPhase, event: GetEvent) -> bool {
    match phase {
        GetPhase::Header => event is Unread || event is Silent || event is Undecodable || event
            is Header,
        GetPhase::Receive { .. } => event is Received,
        GetPhase::Drain => event is Ended || event is NotEnded,
        GetPhase::Commit { .. } => event is Committed,
        GetPhase::Discard => event is Removed,
        GetPhase::Finished => false,
    }
}

/// `d` ended in `phase` with an error.
pub open spec fn get_failed(d: Download, phase: GetPhase, e: RemExecError) -> bool {
    d.phase == phase && d.outcome == Some(Err::<Response, RemExecError>(e))
}

/// `d` ended in `phase` with an answer for which `p` holds.
pub open spec fn get_answered(d: Download, phase: GetPhase, p: spec_fn(Response) -> bool) -> bool {
    d.phase == phase && (d.outcome matches Some(Ok(r)) && p(r))
}

/// `d` ended with a protocol or SSH error with this text.
pub open spec fn get_failed_text(d: Download, ssh: bool, text: Seq<char>) -> bool {
    d.phase is Finished && (d.outcome matches Some(Err(e)) && if ssh {
        e matches RemExecError::Ssh(m) && m@ == text
    } else {
        e matches RemExecError::Protocol(m) && m@ == text
    })
}

/// What a header does to a download.
pub open spec fn headed(d0: Download, header: Response, d1: Download) -> bool {
    match header {
        Response::Error { .. } => d1.phase is Finished && d1.outcome == Some(
            Ok::<Response, RemExecError>(header),
        ) && d1.applied == d0.applied,
        Response::GetStream { size, mode } => match mode_of(mode@) {
            None => get_failed_text(d1, false, "invalid octal mode: "@ + mode@) && d1.applied
                == d0.applied,
            Some(m) => d1.phase == (GetPhase::Receive { size }) && d1.outcome is None && d1.applied
                == (match d0.mode_override {
                Some(o) => o,
                None => m as u32,
            }),
        },
        _ => get_failed_text(d1, false, "unexpected header type from remote"@) && d1.applied
            == d0.applied,
    }
}

/// What is said of a file that changed while it was read.
pub open spec fn changed_text(path: Seq<char>, local: Seq<char>) -> Seq<char> {
    path + " changed while being read — nothing was written to "@ + local
        + "; retry, or snapshot the file remotely first"@
}

/// `r` says that the file was downloaded.
pub open spec fn is_got(r: Response, to: Seq<char>, n: u64, m: u32) -> bool {
    r matches Response::Got { path, bytes, mode } && path@ == to && bytes == n && string_view(mode)
        == Some(octal_text(m as int))
}

/// What an event does to a download.
pub open spec fn downloaded(d0: Download, event: GetEvent, d1: Download) -> bool {
    &&& d1.path == d0.path && d1.local == d0.local && d1.mode_override == d0.mode_override
    &&& event !is Header ==> d1.applied == d0.applied
    &&& d1.bytes == match event {
        GetEvent::Received(Ok(n)) => n,
        _ => d0.bytes,
    }
    &&& match event {
        GetEvent::Unread(e) => get_failed(d1, GetPhase::Finished, RemExecError::Io(e)),
        GetEvent::Silent(stderr) => get_failed_text(
            d1,
            true,
            "no response from remote: "@ + trimmed(stderr@),
        ),
        GetEvent::Undecodable(e) => get_failed_text(
            d1,
            false,
            "invalid header from remote: "@ + e@,
        ),
        GetEvent::Header(header) => headed(d0, header, d1),
        GetEvent::Received(Ok(n)) => if n == d0.phase->size {
            d1.phase is Drain && d1.outcome is None
        } else {
            get_answered(
                d1,
                GetPhase::Discard,
                |r: Response|
                    is_error(
                        r,
                        ErrorCode::IncompleteTransfer,
                        "incomplete transfer from "@ + d0.path@ + ": expected "@ + decimal(
                            d0.phase->size as nat,
                        ) + " bytes, received "@ + decimal(n as nat),
                        None,
                    ),
            )
        },
        GetEvent::Received(Err(e)) => get_answered(
            d1,
            GetPhase::Discard,
            |r: Response| is_local_io_error(r, d0.local@, e),
        ),
        GetEvent::Ended { extra, success } => if extra == 0 && success {
            d1.phase == (GetPhase::Commit { mode: d0.applied }) && d1.outcome is None
        } else {
            get_answered(
                d1,
                GetPhase::Discard,
                |r: Response|
                    is_error(
                        r,
                        ErrorCode::FileChanged,
                        changed_text(d0.path@, d0.local@),
                        None,
                    ),
            )
        },
        GetEvent::NotEnded(e) => get_failed(d1, GetPhase::Discard, RemExecError::Io(e)),
        GetEvent::Committed(Ok(())) => get_answered(
            d1,
            GetPhase::Finished,
            |r: Response| is_got(r, d0.local@, d0.bytes, d0.applied),
        ),
        GetEvent::Committed(Err(e)) => get_answered(
            d1,
            GetPhase::Discard,
            |r: Response| is_local_io_error(r, d0.local@, e),
        ),
        GetEvent::Removed => d1.phase is Finished && d1.outcome == d0.outcome,
    }
}

impl Download {
    /// There is an outcome from the moment something went wrong or all is done.
    pub open spec fn wf(self) -> bool {
        (self.phase is Discard || self.phase is Finished) <==> self.outcome is Some
    }

    /// Begin a download.
    pub fn begin(path: &str, local: &str, mode_override: Option<u32>) -> (r: Self)
        ensures
            r.wf(),
            r.phase is Header,
            r.path@ == path@,
            r.local@ == local@,
            r.mode_override == mode_override,
    {
        Download {
            path: path.to_owned(),
            local: local.to_owned(),
            mode_override,
            phase: GetPhase::Header,
            applied: 0,
            bytes: 0,
            outcome: None,
        }
    }

    fn end(&mut self, phase: GetPhase, outcome: Result<Response, RemExecError>)
        ensures
            *final(self) == (Download { phase, outcome: Some(outcome), ..*old(self) }),
    {
        self.phase = phase;
        self.outcome = Some(outcome);
    }

    fn header(&mut self, header: Response)
        requires
            old(self).phase is Header,
            old(self).wf(),
        ensures
            final(self).wf(),
            downloaded(*old(self), GetEvent::Header(header), *final(self)),
    {
        match header {
            Response::Error { .. } => {
                self.end(GetPhase::Finished, Ok(header));
            },
            Response::GetStream { size, mode } => match parse_octal_mode(mode.as_str()) {
                Err(e) => {
                    self.end(GetPhase::Finished, Err(RemExecError::Protocol(e)));
                },
                Ok(m) => {
                    self.applied = match self.mode_override {
                        Some(o) => o,
                        None => m,
                    };
                    self.phase = GetPhase::Receive { size };
                },
            },
            _ => {
                self.end(
                    GetPhase::Finished,
                    Err(RemExecError::Protocol("unexpected header type from remote".to_owned())),
                );
            },
        }
    }

    fn received(&mut self, copied: Result<u64, IoError>)
        requires
            old(self).phase is Receive,
            old(self).wf(),
        ensures
            final(self).wf(),
            downloaded(*old(self), GetEvent::Received(copied), *final(self)),
    {
        let size: u64 = match self.phase {
            GetPhase::Receive { size } => size,
            _ => 0,
        };
        match receive_to_temp(copied, size) {
            Ok(n) => {
                self.bytes = n;
                self.phase = GetPhase::Drain;
            },
            Err(ReceiveError::Incomplete { expected, got }) => {
                self.bytes = got;
                let mut text = labelled("incomplete transfer from ", self.path.as_str());
                text.append(": expected ");
                text.append(render_u64(expected).as_str());
                text.append(" bytes, received ");
                text.append(render_u64(got).as_str());
                let answer = Response::error_code(ErrorCode::IncompleteTransfer, text.as_str());
                self.end(GetPhase::Discard, Ok(answer));
            },
            Err(ReceiveError::Io(e)) => {
                let answer = local_io_error_json(self.local.as_str(), &e);
                self.end(GetPhase::Discard, Ok(answer));
            },
        }
    }

    /// One step of a download. Receiving and installing are two steps, so that
    /// what arrived is checked in between: nothing may follow the declared bytes,
    /// and the remote end must say that the file did not change.
    pub fn step(&mut self, event: GetEvent)
        requires
            old(self).wf(),
            get_fits(old(self).phase, event),
        ensures
            final(self).wf(),
            downloaded(*old(self), event, *final(self)),
    {
        match event {
            GetEvent::Unread(e) => {
                self.end(GetPhase::Finished, Err(RemExecError::Io(e)));
            },
            GetEvent::Silent(stderr) => {
                let text = labelled("no response from remote: ", trim(stderr.as_str()).as_str());
                self.end(GetPhase::Finished, Err(RemExecError::Ssh(text)));
            },
            GetEvent::Undecodable(e) => {
                let text = labelled("invalid header from remote: ", e.as_str());
                self.end(GetPhase::Finished, Err(RemExecError::Protocol(text)));
            },
            GetEvent::Header(header) => {
                self.header(header);
            },
            GetEvent::Received(copied) => {
                self.received(copied);
            },
            GetEvent::Ended { extra, success } => {
                if extra == 0 && success {
                    self.phase = GetPhase::Commit { mode: self.applied };
                } else {
                    let mut text = self.path.clone();
                    text.append(" changed while being read — nothing was written to ");
                    text.append(self.local.as_str());
                    text.append("; retry, or snapshot the file remotely first");
                    let answer = Response::error_code(ErrorCode::FileChanged, text.as_str());
                    self.end(GetPhase::Discard, Ok(answer));
                }
            },
            GetEvent::NotEnded(e) => {
                self.end(GetPhase::Discard, Err(RemExecError::Io(e)));
            },
            GetEvent::Committed(Ok(())) => {
                let answer = Response::Got {
                    path: self.local.clone(),
                    bytes: self.bytes,
                    mode: Some(octal_mode(self.applied)),
                };
                self.end(GetPhase::Finished, Ok(answer));
            },
            GetEvent::Committed(Err(e)) => {
                let answer = local_io_error_json(self.local.as_str(), &e);
                self.end(GetPhase::Discard, Ok(answer));
            },
            GetEvent::Removed => {
                self.phase = GetPhase::Finished;
            },
        }
    }
}

/// A download replaces its destination only with all the bytes that were
/// declared, none beyond them, and a remote end that says the file did not
/// change; whatever goes wrong after staging began ends in the removal of the
/// temp file.
pub proof fn lemma_destination_is_replaced_last(d0: Download, event: GetEvent, d1: Download)
    requires
        d0.wf(),
        get_fits(d0.phase, event),
        downloaded(d0, event, d1),
    ensures
        d1.phase is Commit ==> d0.phase is Drain && event == (GetEvent::Ended {
            extra: 0,
            success: true,
        }),
        d1.phase is Drain ==> (d0.phase matches GetPhase::Receive { size } && event
            == GetEvent::Received(Ok(size)) && d1.bytes == size),
        (d1.outcome matches Some(Ok(r)) && r is Got) && d0.outcome is None && d0.phase !is Header
            ==> d0.phase is Commit && (event matches GetEvent::Committed(Ok(_))),
        (d0.phase is Receive || d0.phase is Drain || d0.phase is Commit) && d1.phase is Finished
            ==> (event matches GetEvent::Committed(Ok(_))),
{
}

/// A download that goes well puts the file there: the header's size is what is
/// received, nothing follows it, and the file gets the mode that was asked for, or
/// else the one that the header announces; the answer names the local file, that
/// size and that mode.
pub proof fn lemma_download_goes_well(
    d0: Download,
    d1: Download,
    d2: Download,
    d3: Download,
    d4: Download,
    size: u64,
    bits: u32,
    mode: String,
)
    requires
        d0.phase is Header,
        mode@ == octal_text(bits as int),
        downloaded(d0, GetEvent::Header(Response::GetStream { size, mode }), d1),
        downloaded(d1, GetEvent::Received(Ok(size)), d2),
        downloaded(d2, GetEvent::Ended { extra: 0, success: true }, d3),
        downloaded(d3, GetEvent::Committed(Ok(())), d4),
    ensures
        d1.phase == (GetPhase::Receive { size }),
        d2.phase is Drain,
        d3.phase == (GetPhase::Commit {
            mode: match d0.mode_override {
                Some(m) => m,
                None => (bits as int % 4096) as u32,
            },
        }),
        d4.phase is Finished,
        d4.outcome matches Some(Ok(Response::Got { path, bytes, mode: m })) && path@ == d0.local@
            && bytes == size && (m matches Some(text) && mode_of(text@) == Some(
            (match d0.mode_override {
                Some(o) => o as int % 4096,
                None => bits as int % 4096,
            }),
        )),
{
    crate::protocol::lemma_octal_roundtrip(bits);
    crate::protocol::lemma_octal_roundtrip(d1.applied);
}

/// What goes wrong with a download is told by its own code: fewer or more bytes than
/// were declared as an incomplete transfer, a file that grew or a remote end that
/// failed as a file that changed, and an error of the host's as it came. None of
/// these replaces the local file.
pub proof fn lemma_download_goes_wrong(d0: Download, event: GetEvent, d1: Download)
    requires
        d0.wf(),
        get_fits(d0.phase, event),
        downloaded(d0, event, d1),
    ensures
        (d0.phase matches GetPhase::Receive { size } && (event matches GetEvent::Received(Ok(n)) && n
            != size)) ==> (d1.outcome matches Some(Ok(Response::Error { code, .. })) && code
            == Some(ErrorCode::IncompleteTransfer)) && d1.phase is Discard,
        (event matches GetEvent::Ended { extra, success } && (extra > 0 || !success)) ==> (
        d1.outcome matches Some(Ok(Response::Error { code, .. })) && code == Some(
            ErrorCode::FileChanged,
        )) && d1.phase is Discard,
        (event matches GetEvent::Header(r) && r is Error) ==> (event matches GetEvent::Header(r)
            && d1.outcome == Some(Ok::<Response, RemExecError>(r))) && d1.phase is Finished,
        event is Unread || event is NotEnded ==> (d1.outcome matches Some(Err(e)) && e is Io),
        event is Silent ==> (d1.outcome matches Some(Err(e)) && e is Ssh),
        event is Undecodable ==> (d1.outcome matches Some(Err(e)) && e is Protocol),
        d1.phase is Commit ==> d1.outcome is None,
{
}

} // verus!
