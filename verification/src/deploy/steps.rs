//! One deployment, step by step.
//!
//! A [`Deployment`] says what to do next; the caller does it and hands back what
//! happened. The steps are:
//!
//! 1. Probe the host, and refuse to move it backwards unless told to
//! 2. Detect the remote architecture via `uname -m`
//! 3. Find the matching binary locally (fetching it when allowed)
//! 4. Ensure ~/.local/bin exists on the remote
//! 5. Copy the binary to a temp name, make it executable, rename it into place
//! 6. Verify with a version check

use vstd::prelude::*;

use crate::deploy::cache::{arch_of, cached_binary_path, cached_name, detect_arch};
use crate::deploy::{
    ahead_of_own, is_newer_than_own, own_tag, own_version, DeployOpts, DeployResult, DeployStatus,
    VERSION,
};
use crate::error::{labelled, IoError, RemExecError};
use crate::number::{decimal, render_u64};
use crate::path::joined_path;
use crate::protocol::{Response, PROTOCOL_VERSION};
use crate::ssh::{push_arg, SshOutput};
use crate::text::{
    from_utf8_lossy, join, joined, lossy_text, same, trim_start_char, trim_start_matches, trimmed,
    views,
};

verus! {

/// Why a host's rxd must not be replaced: it is provably ahead of this rx, by a
/// later wire protocol or by a later build of the same protocol.
pub open spec fn refusal(host: Seq<char>, status: DeployStatus) -> Option<Seq<char>> {
    match status {
        DeployStatus::Incompatible { version, protocol } => if protocol > PROTOCOL_VERSION {
            Some(
                "refusing to downgrade "@ + host + ": it runs rxd "@ + version@ + " (protocol "@
                    + decimal(protocol as nat) + "), newer than this rx "@ + VERSION@
                    + " (protocol "@ + decimal(PROTOCOL_VERSION as nat)
                    + ") — upgrade rx, or pass --allow-downgrade to overwrite it anyway"@,
            )
        } else {
            later_build(host, version@)
        },
        DeployStatus::Current { version } => later_build(host, version@),
        _ => None,
    }
}

/// A host is refused exactly where it is ahead of this rx: by its protocol, or by its
/// version; one that is behind, current or without rxd never is.
pub proof fn lemma_only_a_newer_host_is_refused(host: Seq<char>, status: DeployStatus)
    ensures
        status matches DeployStatus::Incompatible { version, protocol } ==> (refusal(host, status)
            is Some <==> protocol > PROTOCOL_VERSION || ahead_of_own(version@)),
        status matches DeployStatus::Current { version } ==> (refusal(host, status) is Some
            <==> ahead_of_own(version@)),
        status is Missing || status is Unknown ==> refusal(host, status) is None,
{
}

/// The refusal for a later build.
pub open spec fn later_build(host: Seq<char>, version: Seq<char>) -> Option<Seq<char>> {
    if ahead_of_own(version) {
        Some(
            "refusing to downgrade "@ + host + ": it runs rxd "@ + version
                + ", newer than this rx "@ + VERSION@
                + " — upgrade rx, or pass --allow-downgrade to overwrite it anyway"@,
        )
    } else {
        None
    }
}

fn later_build_refusal(host: &str, version: &str) -> (r: Option<String>)
    ensures
        match later_build(host@, version@) {
            Some(t) => r matches Some(s) && s@ == t,
            None => r is None,
        },
{
    if !is_newer_than_own(version) {
        return None;
    }
    let mut m = labelled("refusing to downgrade ", host);
    m.append(": it runs rxd ");
    m.append(version);
    m.append(", newer than this rx ");
    m.append(VERSION);
    m.append(" — upgrade rx, or pass --allow-downgrade to overwrite it anyway");
    Some(m)
}

/// The reason to refuse replacing `host`'s rxd, if it is ahead of this rx.
///
/// Only refuses when the remote is *provably* ahead: an unreadable version must
/// not block an explicit deploy, which is the very thing that repairs a host in
/// an unknown state.
pub fn downgrade_refusal(host: &str, status: &DeployStatus) -> (r: Option<String>)
    ensures
        match refusal(host@, *status) {
            Some(t) => r matches Some(s) && s@ == t,
            None => r is None,
        },
{
    match status {
        DeployStatus::Incompatible { version, protocol } => {
            if *protocol > PROTOCOL_VERSION {
                let mut m = labelled("refusing to downgrade ", host);
                m.append(": it runs rxd ");
                m.append(version.as_str());
                m.append(" (protocol ");
                m.append(render_u64(*protocol as u64).as_str());
                m.append("), newer than this rx ");
                m.append(VERSION);
                m.append(" (protocol ");
                m.append(render_u64(PROTOCOL_VERSION as u64).as_str());
                m.append(") — upgrade rx, or pass --allow-downgrade to overwrite it anyway");
                Some(m)
            } else {
                later_build_refusal(host, version.as_str())
            }
        },
        DeployStatus::Current { version } => later_build_refusal(host, version.as_str()),
        _ => None,
    }
}

/// What is said of a deployed binary that is not the matching build.
pub open spec fn wrong_build_text(host: Seq<char>, version: Seq<char>, protocol: u32) -> Seq<char> {
    "deployed rxd "@ + version + " on "@ + host + " speaks protocol "@ + decimal(protocol as nat)
        + ", but rx "@ + VERSION@ + " needs "@ + decimal(PROTOCOL_VERSION as nat)
        + " — the deployed binary is not the matching build (retry without --binary, or `rx cache fetch --force`)"@
}

/// What is said of an answer that is no version.
pub open spec fn no_version_text() -> Seq<char> {
    "unexpected response to version command after deploy"@
}

/// `e` is a protocol error with this text.
pub open spec fn is_protocol(e: RemExecError, text: Seq<char>) -> bool {
    e matches RemExecError::Protocol(m) && m@ == text
}

/// The answer to the version check after a deploy: the version, unless the
/// binary that was copied is not the matching build.
pub fn verify_remote_version(host: &str, answer: Result<Response, RemExecError>) -> (r: Result<
    String,
    RemExecError,
>)
    ensures
        match answer {
            Err(e) => r == Err::<String, RemExecError>(e),
            Ok(Response::Version { version, protocol }) => if protocol == PROTOCOL_VERSION {
                r == Ok::<String, RemExecError>(version)
            } else {
                r matches Err(e) && is_protocol(e, wrong_build_text(host@, version@, protocol))
            },
            Ok(_) => r matches Err(e) && is_protocol(e, no_version_text()),
        },
{
    match answer {
        Err(e) => Err(e),
        Ok(Response::Version { version, protocol }) => {
            if protocol == PROTOCOL_VERSION {
                return Ok(version);
            }
            let mut m = labelled("deployed rxd ", version.as_str());
            m.append(" on ");
            m.append(host);
            m.append(" speaks protocol ");
            m.append(render_u64(protocol as u64).as_str());
            m.append(", but rx ");
            m.append(VERSION);
            m.append(" needs ");
            m.append(render_u64(PROTOCOL_VERSION as u64).as_str());
            m.append(
                " — the deployed binary is not the matching build (retry without --binary, or `rx cache fetch --force`)",
            );
            Err(RemExecError::Protocol(m))
        },
        Ok(_) => Err(
            RemExecError::Protocol(
                "unexpected response to version command after deploy".to_owned(),
            ),
        ),
    }
}

// ---------------------------------------------------------------------------
// The steps
// ---------------------------------------------------------------------------

/// What a deployment wants done next.
#[derive(Debug, Clone, Copy, PartialEq, Eq, Structural)]
pub enum DeployPhase {
    /// Ask the host for its version.
    Probe,
    /// Run `uname -m` on the host.
    DetectArch,
    /// See whether the local binary exists.
    FindBinary,
    /// Fetch the binary into the local cache.
    Fetch,
    /// See whether the fetched binary exists.
    Recheck,
    /// Create ~/.local/bin on the host.
    MakeDir,
    /// Copy the binary to its temp name on the host.
    Upload,
    /// Make the copy executable.
    MakeExecutable,
    /// Rename the copy to the live path.
    Install,
    /// Remove the copy after a failed install.
    RemoveStaged,
    /// Ask the host for its version again.
    Verify,
    /// Nothing: there is an outcome.
    Finished,
}

/// What came of the last step.
#[derive(Debug)]
pub enum DeployEvent {
    /// What the probe found.
    Probed(DeployStatus),
    /// A command ran to its end.
    Ran(SshOutput),
    /// A command could not be run.
    NotRun(IoError),
    /// Whether a local file exists.
    Exists(bool),
    /// Whether fetching worked.
    Fetched(Result<(), RemExecError>),
    /// The answer to a version check.
    Answered(Result<Response, RemExecError>),
    /// The copy was removed, or could not be.
    Removed,
}

/// One deployment to one host.
#[derive(Debug)]
pub struct Deployment {
    pub host: String,
    pub opts: DeployOpts,
    /// Where release binaries are cached.
    pub store: String,
    /// The temp name of the upload on the host.
    pub staged: String,
    pub phase: DeployPhase,
    pub status: DeployStatus,
    pub arch: String,
    /// The local binary to upload.
    pub binary: String,
    pub outcome: Option<Result<DeployResult, RemExecError>>,
}

/// The temp name of an upload: it carries the process id, so two concurrent
/// deploys to one host cannot overwrite each other's upload.
pub open spec fn staged_name(pid: u32) -> Seq<char> {
    ".local/bin/.rxd-deploy."@ + decimal(pid as nat) + ".tmp"@
}

/// The host may be changed: it is not ahead of this rx, or that was allowed.
pub open spec fn permitted(d: Deployment) -> bool {
    d.opts.allow_downgrade || refusal(d.host@, d.status) is None
}

/// The host already runs this exact rxd and no other binary was asked for.
/// Asking for a state that already holds is success, not work.
pub open spec fn already_current(opts: DeployOpts, status: DeployStatus) -> bool {
    opts.binary is None && (status matches DeployStatus::Current { version } && trim_start_char(
        version@,
        'v',
    ) == VERSION@)
}

/// The event is one that the phase waits for.
pub open spec fn fits(phase: DeployPhase, event: DeployEvent) -> bool {
    match phase {
        DeployPhase::Probe => event is Probed,
        DeployPhase::DetectArch | DeployPhase::MakeDir | DeployPhase::Upload
        | DeployPhase::MakeExecutable | DeployPhase::Install => event is Ran || event is NotRun,
        DeployPhase::FindBinary | DeployPhase::Recheck => event is Exists,
        DeployPhase::Fetch => event is Fetched,
        DeployPhase::RemoveStaged => event is Removed,
        DeployPhase::Verify => event is Answered,
        DeployPhase::Finished => false,
    }
}

/// `d` ended with an error for which `p` holds.
pub open spec fn failed(d: Deployment, p: spec_fn(RemExecError) -> bool) -> bool {
    d.phase is Finished && (d.outcome matches Some(Err(e)) && p(e))
}

/// `d` ended well.
pub open spec fn done(d: Deployment, arch: Seq<char>, version: Seq<char>, changed: bool) -> bool {
    d.phase is Finished && (d.outcome matches Some(Ok(r)) && r.host@ == d.host@ && r.arch@ == arch
        && r.version@ == version && r.changed == changed)
}

/// `d` goes on with `phase`.
pub open spec fn goes_on(d: Deployment, phase: DeployPhase) -> bool {
    d.phase == phase && d.outcome is None
}

/// `e` is an SSH error with this text.
pub open spec fn is_ssh(e: RemExecError, text: Seq<char>) -> bool {
    e matches RemExecError::Ssh(m) && m@ == text
}

/// `e` is an untyped error with this text.
pub open spec fn is_other(e: RemExecError, text: Seq<char>) -> bool {
    e matches RemExecError::Other(m) && m@ == text
}

/// The local binary for a deployment.
pub open spec fn local_binary(d: Deployment, arch: Seq<char>) -> Seq<char> {
    match d.opts.binary {
        Some(path) => path@,
        None => joined_path(d.store@, cached_name(own_tag(), arch)),
    }
}

/// The words of the remote command of a phase.
pub open spec fn command_words(phase: DeployPhase, staged: Seq<char>) -> Seq<Seq<char>> {
    match phase {
        DeployPhase::DetectArch => seq!["uname"@, "-m"@],
        DeployPhase::MakeDir => seq!["mkdir"@, "-p"@, ".local/bin"@],
        DeployPhase::MakeExecutable => seq!["chmod"@, "755"@, staged],
        DeployPhase::Install => seq!["mv"@, "-f"@, staged, ".local/bin/rxd"@],
        DeployPhase::RemoveStaged => seq!["rm"@, "-f"@, staged],
        _ => Seq::empty(),
    }
}

/// The arguments of the upload.
pub open spec fn scp_words(binary: Seq<char>, host: Seq<char>, staged: Seq<char>) -> Seq<
    Seq<char>,
> {
    seq!["--"@, binary, host + ":"@ + staged]
}

/// What a command that ran does to the deployment.
pub open spec fn ran(d0: Deployment, out: SshOutput, d1: Deployment) -> bool {
    let stderr = lossy_text(out.stderr@);
    match d0.phase {
        DeployPhase::DetectArch => {
            let raw = trimmed(lossy_text(out.stdout@));
            if !out.success {
                failed(
                    d1,
                    |e: RemExecError|
                        is_ssh(e, "failed to detect arch on "@ + d0.host@ + ": "@ + stderr),
                )
            } else if arch_of(raw) is None {
                failed(
                    d1,
                    |e: RemExecError|
                        is_other(e, "unsupported architecture on "@ + d0.host@ + ": "@ + raw),
                )
            } else if already_current(d0.opts, d0.status) {
                done(d1, arch_of(raw)->0, d0.status->Current_version@, false)
            } else {
                goes_on(d1, DeployPhase::FindBinary) && d1.arch@ == arch_of(raw)->0 && d1.binary@
                    == local_binary(d0, arch_of(raw)->0)
            }
        },
        DeployPhase::MakeDir => if out.success {
            goes_on(d1, DeployPhase::Upload)
        } else {
            failed(
                d1,
                |e: RemExecError|
                    is_ssh(e, "failed to create ~/.local/bin on "@ + d0.host@ + ": "@ + stderr),
            )
        },
        DeployPhase::Upload => if out.success {
            goes_on(d1, DeployPhase::MakeExecutable)
        } else {
            failed(
                d1,
                |e: RemExecError| is_ssh(e, "scp to "@ + d0.host@ + " failed: "@ + stderr),
            )
        },
        _ => if out.success {
            goes_on(
                d1,
                if d0.phase is MakeExecutable {
                    DeployPhase::Install
                } else {
                    DeployPhase::Verify
                },
            )
        } else {
            d1.phase is RemoveStaged && (d1.outcome matches Some(Err(e)) && is_ssh(
                e,
                "installing rxd on "@ + d0.host@ + " failed at `"@ + joined(
                    command_words(d0.phase, d0.staged@),
                    " "@,
                ) + "`: "@ + stderr,
            ))
        },
    }
}

/// What an event does to a deployment.
pub open spec fn stepped(d0: Deployment, event: DeployEvent, d1: Deployment) -> bool {
    &&& d1.host == d0.host && d1.opts == d0.opts && d1.store == d0.store && d1.staged == d0.staged
    &&& event !is Probed ==> d1.status == d0.status
    &&& d0.phase !is DetectArch ==> d1.arch == d0.arch && d1.binary == d0.binary
    &&& match event {
        DeployEvent::Probed(status) => d1.status == status && (if permitted(d1) {
            goes_on(d1, DeployPhase::DetectArch)
        } else {
            failed(d1, |e: RemExecError| is_other(e, refusal(d0.host@, status)->0))
        }),
        DeployEvent::NotRun(io) => failed(d1, |e: RemExecError| e == RemExecError::Io(io)),
        DeployEvent::Ran(out) => ran(d0, out, d1),
        DeployEvent::Exists(true) => goes_on(d1, DeployPhase::MakeDir),
        DeployEvent::Exists(false) => if d0.phase is Recheck {
            failed(
                d1,
                |e: RemExecError|
                    is_other(
                        e,
                        "rxd "@ + own_tag() + " for "@ + d0.arch@ + " still missing at "@
                            + d0.binary@ + " after fetch"@,
                    ),
            )
        } else if d0.opts.binary is Some {
            failed(d1, |e: RemExecError| is_other(e, "no such binary: "@ + d0.binary@))
        } else if !d0.opts.allow_fetch {
            failed(
                d1,
                |e: RemExecError|
                    is_other(
                        e,
                        "no cached rxd "@ + own_tag() + " for "@ + d0.arch@ + " at "@ + d0.binary@
                            + " — run `rx cache fetch --arch "@ + d0.arch@
                            + "` (needs network), or pass --binary PATH to deploy a local build"@,
                    ),
            )
        } else {
            goes_on(d1, DeployPhase::Fetch)
        },
        DeployEvent::Fetched(Ok(())) => goes_on(d1, DeployPhase::Recheck),
        DeployEvent::Fetched(Err(fault)) => failed(d1, |e: RemExecError| e == fault),
        DeployEvent::Answered(answer) => match answer {
            Err(fault) => failed(d1, |e: RemExecError| e == fault),
            Ok(Response::Version { version, protocol }) => if protocol == PROTOCOL_VERSION {
                done(d1, d0.arch@, version@, true)
            } else {
                failed(
                    d1,
                    |e: RemExecError|
                        is_protocol(e, wrong_build_text(d0.host@, version@, protocol)),
                )
            },
            Ok(_) => failed(d1, |e: RemExecError| is_protocol(e, no_version_text())),
        },
        DeployEvent::Removed => d1.phase is Finished && d1.outcome == d0.outcome,
    }
}

impl Deployment {
    /// Past the probe, a deployment that is still open may change the host.
    pub open spec fn wf(self) -> bool {
        &&& (self.phase !is Probe && self.outcome is None) ==> permitted(self)
        &&& self.phase is Finished ==> self.outcome is Some
        &&& self.phase is RemoveStaged ==> (self.outcome matches Some(Err(_)))
        &&& (self.phase !is Finished && self.phase !is RemoveStaged) ==> self.outcome is None
    }
}

/// Begin a deployment of this rx's own rxd, or of the binary in `opts`.
pub fn begin(host: &str, opts: DeployOpts, store: &str, pid: u32) -> (d: Deployment)
    ensures
        d.wf(),
        d.phase is Probe,
        d.host@ == host@,
        d.opts == opts,
        d.store@ == store@,
        d.staged@ == staged_name(pid),
{
    let mut staged = labelled(".local/bin/.rxd-deploy.", render_u64(pid as u64).as_str());
    staged.append(".tmp");
    Deployment {
        host: host.to_owned(),
        opts,
        store: store.to_owned(),
        staged,
        phase: DeployPhase::Probe,
        status: DeployStatus::Unknown,
        arch: String::new(),
        binary: String::new(),
        outcome: None,
    }
}

/// Begin a deployment with default options: fetch if needed, never downgrade.
pub fn deploy_to_host(host: &str, store: &str, pid: u32) -> (d: Deployment)
    ensures
        d.wf(),
        d.phase is Probe,
        d.host@ == host@,
        d.opts == (DeployOpts { binary: None, allow_fetch: true, allow_downgrade: false }),
        d.store@ == store@,
        d.staged@ == staged_name(pid),
{
    begin(host, DeployOpts::default(), store, pid)
}

fn is_already_current(opts: &DeployOpts, status: &DeployStatus) -> (r: bool)
    ensures
        r == already_current(*opts, *status),
{
    match (&opts.binary, status) {
        (None, DeployStatus::Current { version }) => {
            let bare = trim_start_matches(version.as_str(), 'v');
            same(bare.as_str(), VERSION)
        },
        _ => false,
    }
}

impl Deployment {
    fn finish(&mut self, outcome: Result<DeployResult, RemExecError>)
        ensures
            final(self).phase is Finished,
            final(self).outcome == Some(outcome),
            final(self).host == old(self).host,
            final(self).opts == old(self).opts,
            final(self).store == old(self).store,
            final(self).staged == old(self).staged,
            final(self).status == old(self).status,
            final(self).arch == old(self).arch,
            final(self).binary == old(self).binary,
    {
        self.phase = DeployPhase::Finished;
        self.outcome = Some(outcome);
    }

    /// The words of the remote command that the current phase wants run; none
    /// where it wants something else.
    pub fn remote_words(&self) -> (r: Vec<String>)
        ensures
            views(r@) == command_words(self.phase, self.staged@),
    {
        let mut words: Vec<String> = Vec::new();
        match self.phase {
            DeployPhase::DetectArch => {
                push_arg(&mut words, "uname");
                push_arg(&mut words, "-m");
            },
            DeployPhase::MakeDir => {
                push_arg(&mut words, "mkdir");
                push_arg(&mut words, "-p");
                push_arg(&mut words, ".local/bin");
            },
            DeployPhase::MakeExecutable => {
                push_arg(&mut words, "chmod");
                push_arg(&mut words, "755");
                push_arg(&mut words, self.staged.as_str());
            },
            DeployPhase::Install => {
                push_arg(&mut words, "mv");
                push_arg(&mut words, "-f");
                push_arg(&mut words, self.staged.as_str());
                push_arg(&mut words, ".local/bin/rxd");
            },
            DeployPhase::RemoveStaged => {
                push_arg(&mut words, "rm");
                push_arg(&mut words, "-f");
                push_arg(&mut words, self.staged.as_str());
            },
            _ => {},
        }
        assert(views(words@) =~= command_words(self.phase, self.staged@));
        words
    }

    /// The arguments of the `scp` that uploads the binary to its temp name.
    pub fn scp_args(&self) -> (r: Vec<String>)
        ensures
            views(r@) == scp_words(self.binary@, self.host@, self.staged@),
    {
        let mut target = labelled(self.host.as_str(), ":");
        target.append(self.staged.as_str());
        let mut args: Vec<String> = Vec::new();
        push_arg(&mut args, "--");
        push_arg(&mut args, self.binary.as_str());
        push_arg(&mut args, target.as_str());
        assert(views(args@) =~= scp_words(self.binary@, self.host@, self.staged@));
        args
    }

    fn after_command(&mut self, out: SshOutput)
        requires
            old(self).wf(),
            fits(old(self).phase, DeployEvent::Ran(out)),
        ensures
            final(self).wf(),
            stepped(*old(self), DeployEvent::Ran(out), *final(self)),
    {
        match self.phase {
            DeployPhase::DetectArch => {
                match detect_arch(self.host.as_str(), &out) {
                    Err(e) => self.finish(Err(e)),
                    Ok(arch) => {
                        if is_already_current(&self.opts, &self.status) {
                            let version: String = match &self.status {
                                DeployStatus::Current { version } => version.clone(),
                                _ => String::new(),
                            };
                            let host = self.host.clone();
                            self.finish(Ok(DeployResult { host, arch, version, changed: false }));
                        } else {
                            let binary: String = match &self.opts.binary {
                                Some(path) => path.clone(),
                                None => cached_binary_path(
                                    self.store.as_str(),
                                    own_version().as_str(),
                                    arch.as_str(),
                                ),
                            };
                            self.arch = arch;
                            self.binary = binary;
                            self.phase = DeployPhase::FindBinary;
                        }
                    },
                }
            },
            DeployPhase::MakeDir => {
                if out.success {
                    self.phase = DeployPhase::Upload;
                } else {
                    let mut m = labelled(
                        "failed to create ~/.local/bin on ",
                        self.host.as_str(),
                    );
                    m.append(": ");
                    m.append(from_utf8_lossy(&out.stderr).as_str());
                    self.finish(Err(RemExecError::Ssh(m)));
                }
            },
            DeployPhase::Upload => {
                if out.success {
                    self.phase = DeployPhase::MakeExecutable;
                } else {
                    let mut m = labelled("scp to ", self.host.as_str());
                    m.append(" failed: ");
                    m.append(from_utf8_lossy(&out.stderr).as_str());
                    self.finish(Err(RemExecError::Ssh(m)));
                }
            },
            _ => {
                if out.success {
                    self.phase = match self.phase {
                        DeployPhase::MakeExecutable => DeployPhase::Install,
                        _ => DeployPhase::Verify,
                    };
                } else {
                    let words = self.remote_words();
                    let mut m = labelled("installing rxd on ", self.host.as_str());
                    m.append(" failed at `");
                    m.append(join(&words, " ").as_str());
                    m.append("`: ");
                    m.append(from_utf8_lossy(&out.stderr).as_str());
                    self.outcome = Some(Err(RemExecError::Ssh(m)));
                    self.phase = DeployPhase::RemoveStaged;
                }
            },
        }
    }

    fn after_search(&mut self, found: bool)
        requires
            old(self).wf(),
            old(self).phase is FindBinary || old(self).phase is Recheck,
        ensures
            final(self).wf(),
            stepped(*old(self), DeployEvent::Exists(found), *final(self)),
    {
        if found {
            self.phase = DeployPhase::MakeDir;
            return;
        }
        if matches!(self.phase, DeployPhase::Recheck) {
            let mut m = labelled("rxd ", own_version().as_str());
            m.append(" for ");
            m.append(self.arch.as_str());
            m.append(" still missing at ");
            m.append(self.binary.as_str());
            m.append(" after fetch");
            self.finish(Err(RemExecError::Other(m)));
        } else if self.opts.binary.is_some() {
            let m = labelled("no such binary: ", self.binary.as_str());
            self.finish(Err(RemExecError::Other(m)));
        } else if !self.opts.allow_fetch {
            let mut m = labelled("no cached rxd ", own_version().as_str());
            m.append(" for ");
            m.append(self.arch.as_str());
            m.append(" at ");
            m.append(self.binary.as_str());
            m.append(" — run `rx cache fetch --arch ");
            m.append(self.arch.as_str());
            m.append("` (needs network), or pass --binary PATH to deploy a local build");
            self.finish(Err(RemExecError::Other(m)));
        } else {
            self.phase = DeployPhase::Fetch;
        }
    }
}

/// Deploy rxd to a remote host: what the last step brought decides the next one.
///
/// The copy goes to a temp name and is renamed into place. A failed transfer
/// must not leave a truncated binary at the live path, and a running rxd cannot
/// be overwritten in place. An explicit binary is always uploaded: a local build
/// can carry the same version string as the release and still differ.
pub fn deploy_to_host_with(d: &mut Deployment, event: DeployEvent)
    requires
        old(d).wf(),
        fits(old(d).phase, event),
    ensures
        final(d).wf(),
        stepped(*old(d), event, *final(d)),
{
    match event {
        DeployEvent::Probed(status) => {
            let refused = downgrade_refusal(d.host.as_str(), &status);
            d.status = status;
            if !d.opts.allow_downgrade {
                if let Some(m) = refused {
                    d.finish(Err(RemExecError::Other(m)));
                    return;
                }
            }
            d.phase = DeployPhase::DetectArch;
        },
        DeployEvent::NotRun(e) => d.finish(Err(RemExecError::Io(e))),
        DeployEvent::Ran(out) => d.after_command(out),
        DeployEvent::Exists(found) => d.after_search(found),
        DeployEvent::Fetched(result) => match result {
            Ok(()) => {
                d.phase = DeployPhase::Recheck;
            },
            Err(e) => d.finish(Err(e)),
        },
        DeployEvent::Answered(answer) => {
            match verify_remote_version(d.host.as_str(), answer) {
                Err(e) => d.finish(Err(e)),
                Ok(version) => {
                    let host = d.host.clone();
                    let arch = d.arch.clone();
                    d.finish(Ok(DeployResult { host, arch, version, changed: true }));
                },
            }
        },
        DeployEvent::Removed => {
            d.phase = DeployPhase::Finished;
        },
    }
}

// ---------------------------------------------------------------------------
// What a deployment promises
// ---------------------------------------------------------------------------

/// The live rxd is replaced by one command only, and that command is reached
/// only behind a complete upload that was made executable; a deployment that
/// reports a change has gone through it.
pub proof fn lemma_live_path_is_replaced_last(d0: Deployment, event: DeployEvent, d1: Deployment)
    requires
        d0.wf(),
        fits(d0.phase, event),
        stepped(d0, event, d1),
    ensures
        d1.phase is MakeExecutable ==> d0.phase is Upload && (event matches DeployEvent::Ran(o)
            && o.success),
        d1.phase is Install ==> d0.phase is MakeExecutable && (event matches DeployEvent::Ran(o)
            && o.success),
        d1.phase is Verify ==> d0.phase is Install && (event matches DeployEvent::Ran(o)
            && o.success),
        (d1.outcome matches Some(Ok(r)) && r.changed) ==> d0.phase is Verify,
{
}

/// A host that is ahead is refused before any command runs on it, unless moving
/// it backwards was allowed.
pub proof fn lemma_refused_host_is_untouched(d0: Deployment, status: DeployStatus, d1: Deployment)
    requires
        d0.wf(),
        d0.phase is Probe,
        stepped(d0, DeployEvent::Probed(status), d1),
        !d0.opts.allow_downgrade,
        refusal(d0.host@, status) is Some,
    ensures
        d1.phase is Finished,
        d1.outcome matches Some(Err(RemExecError::Other(_))),
{
}

/// An unreadable version never blocks a deploy.
pub proof fn lemma_unknown_version_is_not_refused(host: Seq<char>, status: DeployStatus)
    ensures
        status is Missing || status is Unknown ==> refusal(host, status) is None,
        (status matches DeployStatus::Current { version } && crate::deploy::version_of(version@)
            is None) ==> refusal(host, status) is None,
{
}

/// Without leave to fetch, a deployment never downloads.
pub proof fn lemma_offline_never_fetches(d0: Deployment, event: DeployEvent, d1: Deployment)
    requires
        d0.wf(),
        fits(d0.phase, event),
        stepped(d0, event, d1),
        !d0.opts.allow_fetch,
    ensures
        d1.phase !is Fetch,
{
}

/// A file on the host: its bytes and its mode.
pub struct RemoteFile {
    pub bytes: Seq<u8>,
    pub mode: int,
}

/// What `scp` with these arguments does to the files of `host`: it copies one local
/// file to a path there.
pub open spec fn copied_to(
    files: Map<Seq<char>, RemoteFile>,
    host: Seq<char>,
    args: Seq<Seq<char>>,
    local: Map<Seq<char>, Seq<u8>>,
    mode: int,
) -> Map<Seq<char>, RemoteFile> {
    let there = host + ":"@;
    if args.len() == 3 && args[0] == "--"@ && local.contains_key(args[1])
        && crate::text::has_prefix(args[2], there) {
        files.insert(
            args[2].skip(there.len() as int),
            RemoteFile { bytes: local[args[1]], mode },
        )
    } else {
        files
    }
}

/// What a command does to the files of a host.
pub open spec fn performed(files: Map<Seq<char>, RemoteFile>, words: Seq<Seq<char>>) -> Map<
    Seq<char>,
    RemoteFile,
> {
    if words.len() == 4 && words[0] == "mv"@ && words[1] == "-f"@ {
        if files.contains_key(words[2]) {
            files.remove(words[2]).insert(words[3], files[words[2]])
        } else {
            files
        }
    } else if words.len() == 3 && words[0] == "chmod"@ {
        match crate::protocol::mode_of(words[1]) {
            Some(mode) if files.contains_key(words[2]) => files.insert(
                words[2],
                RemoteFile { bytes: files[words[2]].bytes, mode },
            ),
            _ => files,
        }
    } else if words.len() == 3 && words[0] == "rm"@ && words[1] == "-f"@ {
        files.remove(words[2])
    } else {
        files
    }
}

proof fn lemma_mode_755()
    ensures
        crate::protocol::mode_of("755"@) == Some(493int),
{
    reveal_strlit("755");
    reveal_strlit("0o");
    let s = "755"@;
    assert(s[0] == '7' && s[1] == '5' && s[2] == '5');
    if crate::text::has_prefix(s, "0o"@) {
        assert(s.take(2)[0] == "0o"@[0]);
    }
    reveal_with_fuel(crate::number::digits_value, 4);
    let a = s.drop_last();
    let b = a.drop_last();
    assert(b.drop_last() =~= Seq::<char>::empty());
    assert(crate::number::digits_value(b, 8) == 7);
    assert(crate::number::digits_value(a, 8) == 61);
    assert(crate::number::digits_value(s, 8) == 493);
}

/// The temp name of an upload is not the path of the live rxd, and two deploys at
/// once do not share it.
pub proof fn lemma_uploads_do_not_meet(a: u32, b: u32)
    ensures
        staged_name(a) != crate::ssh::REMOTE_BIN@,
        a != b ==> staged_name(a) != staged_name(b),
{
    reveal_strlit(".local/bin/.rxd-deploy.");
    reveal_strlit(".tmp");
    reveal_strlit(".local/bin/rxd");
    let x = staged_name(a);
    let y = staged_name(b);
    assert(x[11] == '.');
    assert(crate::ssh::REMOTE_BIN@[11] == 'r');
    if x == y {
        let m = decimal(a as nat);
        let n = decimal(b as nat);
        assert(m =~= x.subrange(23, x.len() - 4));
        assert(n =~= y.subrange(23, y.len() - 4));
        crate::number::lemma_unsigned_roundtrip(a as nat, u32::MAX as int);
        crate::number::lemma_unsigned_roundtrip(b as nat, u32::MAX as int);
    }
}

/// What a deployment does to a host: after the upload, the change of mode and the
/// rename, the path that rx runs as rxd holds the binary that was uploaded, and it
/// is executable; nothing is left at the temp name, and no other file is touched.
/// Until the rename the live rxd is as it was. Where the rename or the change of
/// mode fails, removing the upload leaves the host as it was.
pub proof fn lemma_deploy_brings_the_binary_live(
    d: Deployment,
    pid: u32,
    files: Map<Seq<char>, RemoteFile>,
    local: Map<Seq<char>, Seq<u8>>,
    mode: int,
)
    requires
        d.staged@ == staged_name(pid),
        local.contains_key(d.binary@),
    ensures
        ({
            let live = crate::ssh::REMOTE_BIN@;
            let up = copied_to(files, d.host@, scp_words(d.binary@, d.host@, d.staged@), local, mode);
            let ready = performed(up, command_words(DeployPhase::MakeExecutable, d.staged@));
            let end = performed(ready, command_words(DeployPhase::Install, d.staged@));
            let gone = performed(ready, command_words(DeployPhase::RemoveStaged, d.staged@));
            &&& end.contains_key(live)
            &&& end[live] == RemoteFile { bytes: local[d.binary@], mode: 493 }
            &&& !end.contains_key(d.staged@)
            &&& end.remove(live) == files.remove(live).remove(d.staged@)
            &&& up.remove(d.staged@) == files.remove(d.staged@)
            &&& ready.remove(d.staged@) == files.remove(d.staged@)
            &&& gone == files.remove(d.staged@)
        }),
{
    lemma_uploads_do_not_meet(pid, pid);
    lemma_mode_755();
    reveal_strlit("mv");
    reveal_strlit("rm");
    reveal_strlit("-f");
    reveal_strlit("chmod");
    reveal_strlit("755");
    reveal_strlit(":");
    reveal_strlit("--");
    let staged = d.staged@;
    let there = d.host@ + ":"@;
    let target = d.host@ + ":"@ + staged;
    assert(target.take(there.len() as int) =~= there);
    assert(target.skip(there.len() as int) =~= staged);
    assert("rm"@[0] == 'r' && "mv"@[0] == 'm');
    assert("chmod"@.len() == 5 && "mv"@.len() == 2 && "rm"@.len() == 2);
    let live = crate::ssh::REMOTE_BIN@;
    let up = copied_to(files, d.host@, scp_words(d.binary@, d.host@, staged), local, mode);
    let ready = performed(up, command_words(DeployPhase::MakeExecutable, staged));
    let end = performed(ready, command_words(DeployPhase::Install, staged));
    let gone = performed(ready, command_words(DeployPhase::RemoveStaged, staged));
    assert(up == files.insert(staged, RemoteFile { bytes: local[d.binary@], mode }));
    assert(ready[staged] == RemoteFile { bytes: local[d.binary@], mode: 493 });
    assert(end.remove(live) =~= files.remove(live).remove(staged));
    assert(up.remove(staged) =~= files.remove(staged));
    assert(ready.remove(staged) =~= files.remove(staged));
    assert(gone =~= files.remove(staged));
}

/// The directory that is made first is the one that both the upload and the live
/// rxd stand in.
pub proof fn lemma_upload_has_a_directory(pid: u32)
    ensures
        ({
            let words = command_words(DeployPhase::MakeDir, staged_name(pid));
            &&& words.len() == 3 && words[0] == "mkdir"@ && words[1] == "-p"@
            &&& joined_path(words[2], "rxd"@) == crate::ssh::REMOTE_BIN@
            &&& words[2].len() + 1 <= staged_name(pid).len()
            &&& staged_name(pid).take(words[2].len() as int) == words[2]
            &&& staged_name(pid)[words[2].len() as int] == '/'
            &&& !staged_name(pid).skip(words[2].len() as int + 1).contains('/')
        }),
{
    reveal_strlit(".local/bin");
    reveal_strlit(".local/bin/rxd");
    reveal_strlit("rxd");
    reveal_strlit(".local/bin/.rxd-deploy.");
    reveal_strlit(".tmp");
    let dir = ".local/bin"@;
    assert(joined_path(dir, "rxd"@) =~= ".local/bin/rxd"@);
    let s = staged_name(pid);
    assert(s.take(10) =~= dir);
    let rest = s.skip(11);
    let digits = decimal(pid as nat);
    crate::number::lemma_digits_roundtrip(pid as nat, 10);
    assert forall|i: int| 0 <= i < rest.len() implies rest[i] != '/' by {
        if 12 <= i < 12 + digits.len() {
            assert(rest[i] == digits[i - 12]);
            assert(crate::number::is_digit(digits[i - 12], 10));
        }
    }
}

/// Which binary is uploaded: the one that was named, else the one of this rx's own
/// version for the architecture of the host, from where fetching puts it.
pub proof fn lemma_binary_fits_the_host(
    d0: Deployment,
    out: SshOutput,
    d1: Deployment,
    plan: crate::deploy::cache::AssetPlan,
    sums: Seq<char>,
)
    requires
        d0.phase is DetectArch,
        stepped(d0, DeployEvent::Ran(out), d1),
        d1.phase is FindBinary,
    ensures
        d0.opts.binary matches Some(path) ==> d1.binary@ == path@,
        arch_of(trimmed(lossy_text(out.stdout@))) == Some(d1.arch@),
        d0.opts.binary is None && crate::deploy::cache::is_asset_plan(
            plan,
            sums,
            own_tag(),
            d1.arch@,
            d0.store@,
        ) ==> d1.binary@ == plan.dest@,
{
}

/// Every step that works leads to the next one, and none that fails does: a
/// deployment to a host that may be changed goes through all its steps in order,
/// and what goes wrong is its outcome.
pub proof fn lemma_deploy_steps_follow(d0: Deployment, event: DeployEvent, d1: Deployment)
    requires
        d0.wf(),
        fits(d0.phase, event),
        stepped(d0, event, d1),
    ensures
        (event matches DeployEvent::Ran(o) && o.success) ==> match d0.phase {
            DeployPhase::MakeDir => d1.phase is Upload,
            DeployPhase::Upload => d1.phase is MakeExecutable,
            DeployPhase::MakeExecutable => d1.phase is Install,
            DeployPhase::Install => d1.phase is Verify,
            _ => true,
        },
        (event matches DeployEvent::Ran(o) && !o.success) ==> (d1.outcome matches Some(Err(_))),
        (event matches DeployEvent::Ran(o) && !o.success) && (d0.phase is MakeExecutable || d0.phase
            is Install) ==> d1.phase is RemoveStaged,
        event is NotRun ==> d1.phase is Finished && (d1.outcome matches Some(Err(_))),
        event == DeployEvent::Exists(true) ==> d1.phase is MakeDir,
        event == DeployEvent::Exists(false) && d0.opts.binary is Some ==> d1.outcome is Some,
        event == DeployEvent::Exists(false) && d0.phase is FindBinary && d0.opts.binary is None
            && d0.opts.allow_fetch ==> d1.phase is Fetch,
        event == DeployEvent::Exists(false) && d1.phase !is Fetch ==> (d1.outcome matches Some(
            Err(_),
        )),
        (event matches DeployEvent::Fetched(Ok(_))) ==> d1.phase is Recheck,
        event matches DeployEvent::Fetched(Err(e)) ==> d1.outcome == Some(
            Err::<DeployResult, RemExecError>(e),
        ),
        d1.outcome matches Some(Ok(r)) ==> r.host@ == d0.host@ && (r.changed <==> d0.phase
            is Verify),
        (d1.outcome matches Some(Ok(r)) && r.changed) ==> (event matches DeployEvent::Answered(
            Ok(Response::Version { version, protocol }),
        ) && protocol == PROTOCOL_VERSION && d1.outcome->0->Ok_0.version@ == version@
            && d1.outcome->0->Ok_0.arch@ == d0.arch@),
        (d1.outcome matches Some(Ok(r)) && !r.changed) ==> d0.phase is DetectArch && d0.opts.binary
            is None && d0.status is Current,
{
}

proof fn lemma_bare_version(v: Seq<char>)
    ensures
        trim_start_char(v, 'v').len() <= v.len(),
        trim_start_char(v, 'v').len() > 0 ==> trim_start_char(v, 'v').last() == v.last(),
    decreases v.len(),
{
    if v.len() > 0 && v[0] == 'v' {
        lemma_bare_version(v.skip(1));
    }
}

/// A host that runs this very version is left alone, and reported as unchanged; any
/// other version, and a binary that was named, is uploaded.
pub proof fn lemma_only_the_same_version_is_kept(d0: Deployment, out: SshOutput, d1: Deployment)
    requires
        d0.wf(),
        d0.phase is DetectArch,
        stepped(d0, DeployEvent::Ran(out), d1),
        out.success,
        arch_of(trimmed(lossy_text(out.stdout@))) is Some,
    ensures
        d0.opts.binary is None && (d0.status matches DeployStatus::Current { version } && (version@
            == VERSION@ || version@ == own_tag())) ==> d1.phase is Finished && (d1.outcome
            matches Some(Ok(r)) && !r.changed && r.version@ == d0.status->Current_version@),
        d0.opts.binary is Some || d0.status !is Current ==> d1.phase is FindBinary,
        (d0.status matches DeployStatus::Current { version } && version@.len() < VERSION@.len())
            ==> d1.phase is FindBinary,
        (d0.status matches DeployStatus::Current { version } && version@.len() > 0 && version@.last()
            != VERSION@.last()) ==> d1.phase is FindBinary,
{
    reveal_strlit("v");
    reveal_strlit("0.4.0");
    if let DeployStatus::Current { version } = d0.status {
        let v = version@;
        lemma_bare_version(v);
        if v == own_tag() {
            assert(v.skip(1) =~= VERSION@);
            lemma_bare_version(v.skip(1));
        }
    }
}

/// A command that failed on the way is told with the host and with what it wrote to
/// stderr, so that a failure of SSH is known as such; a host whose machine no release is
/// built for is told with the machine's name.
pub proof fn lemma_failed_step_is_told(d0: Deployment, out: SshOutput, d1: Deployment)
    requires
        d0.wf(),
        fits(d0.phase, DeployEvent::Ran(out)),
        stepped(d0, DeployEvent::Ran(out), d1),
    ensures
        !out.success ==> (d1.outcome matches Some(Err(RemExecError::Ssh(m)))
            && crate::text::contains_text(m@, d0.host@) && crate::text::contains_text(
            m@,
            lossy_text(out.stderr@),
        )),
        out.success && d0.phase is DetectArch && arch_of(trimmed(lossy_text(out.stdout@))) is None
            ==> (d1.outcome matches Some(Err(RemExecError::Other(m))) && crate::text::contains_text(
            m@,
            d0.host@,
        ) && crate::text::contains_text(m@, trimmed(lossy_text(out.stdout@)))),
{
    let said = lossy_text(out.stderr@);
    let raw = trimmed(lossy_text(out.stdout@));
    let host = d0.host@;
    if !out.success {
        match d0.phase {
            DeployPhase::DetectArch => {
                lemma_told("failed to detect arch on "@, host, ": "@, said);
            },
            DeployPhase::MakeDir => {
                lemma_told("failed to create ~/.local/bin on "@, host, ": "@, said);
            },
            DeployPhase::Upload => {
                lemma_told("scp to "@, host, " failed: "@, said);
            },
            _ => {
                let words = joined(command_words(d0.phase, d0.staged@), " "@);
                let mid = " failed at `"@ + words + "`: "@;
                lemma_told("installing rxd on "@, host, mid, said);
                assert("installing rxd on "@ + host + mid + said =~= "installing rxd on "@ + host
                    + " failed at `"@ + words + "`: "@ + said);
            },
        }
    } else if d0.phase is DetectArch && arch_of(raw) is None {
        lemma_told("unsupported architecture on "@, host, ": "@, raw);
    }
}

proof fn lemma_told(a: Seq<char>, b: Seq<char>, c: Seq<char>, d: Seq<char>)
    ensures
        crate::text::contains_text(a + b + c + d, b),
        crate::text::contains_text(a + b + c + d, d),
{
    let none = Seq::<char>::empty();
    assert(a + b + c + d =~= a + b + (c + d));
    crate::text::lemma_part_occurs(a, b, c + d);
    assert(a + b + c + d =~= (a + b + c) + d + none);
    crate::text::lemma_part_occurs(a + b + c, d, none);
}

/// A host that answers with another protocol after the deploy is told with its version
/// and with both protocols, each as what it is.
pub proof fn lemma_wrong_build_is_told(
    d0: Deployment,
    version: String,
    protocol: u32,
    d1: Deployment,
)
    requires
        d0.wf(),
        d0.phase is Verify,
        protocol != PROTOCOL_VERSION,
        stepped(d0, DeployEvent::Answered(Ok(Response::Version { version, protocol })), d1),
    ensures
        d1.outcome matches Some(Err(RemExecError::Protocol(m))) && crate::text::contains_text(
            m@,
            "rxd "@ + version@ + " on "@ + d0.host@,
        ) && crate::text::contains_text(m@, "speaks protocol "@ + decimal(protocol as nat))
            && crate::text::contains_text(m@, "needs "@ + decimal(PROTOCOL_VERSION as nat)),
{
    reveal_strlit("deployed rxd ");
    reveal_strlit("deployed ");
    reveal_strlit("rxd ");
    reveal_strlit(" speaks protocol ");
    reveal_strlit("speaks protocol ");
    reveal_strlit(" ");
    reveal_strlit(" needs ");
    reveal_strlit("needs ");
    assert("deployed rxd "@ =~= "deployed "@ + "rxd "@);
    assert(" speaks protocol "@ =~= " "@ + "speaks protocol "@);
    assert(" needs "@ =~= " "@ + "needs "@);
    let host = d0.host@;
    let t = wrong_build_text(host, version@, protocol);
    let p = decimal(protocol as nat);
    let q = decimal(PROTOCOL_VERSION as nat);
    let last =
        " — the deployed binary is not the matching build (retry without --binary, or `rx cache fetch --force`)"@;
    let end = ", but rx "@ + VERSION@ + " needs "@ + q + last;
    let name = "rxd "@ + version@ + " on "@ + host;
    assert(t =~= "deployed "@ + name + (" speaks protocol "@ + p + end));
    crate::text::lemma_part_occurs("deployed "@, name, " speaks protocol "@ + p + end);
    let front = "deployed "@ + name + " "@;
    assert(t =~= front + ("speaks protocol "@ + p) + end);
    crate::text::lemma_part_occurs(front, "speaks protocol "@ + p, end);
    let all = "deployed "@ + name + " speaks protocol "@ + p + ", but rx "@ + VERSION@ + " "@;
    assert(t =~= all + ("needs "@ + q) + last);
    crate::text::lemma_part_occurs(all, "needs "@ + q, last);
}

/// A deployment goes on where the host is not ahead of this rx, and on a host that is
/// only where a downgrade was allowed; otherwise it ends before the host is touched, with
/// the refusal.
pub proof fn lemma_downgrade_needs_permission(d0: Deployment, status: DeployStatus, d1: Deployment)
    requires
        d0.phase is Probe,
        stepped(d0, DeployEvent::Probed(status), d1),
    ensures
        d0.opts.allow_downgrade ==> d1.phase is DetectArch,
        refusal(d0.host@, status) is None ==> d1.phase is DetectArch,
        !d0.opts.allow_downgrade ==> (refusal(d0.host@, status) matches Some(why) ==> d1.phase
            is Finished && (d1.outcome matches Some(Err(RemExecError::Other(m))) && m@ == why)),
{
}

} // verus!
