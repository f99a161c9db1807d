//! Errors: what the operating system reported, and what the crate makes of it.

use vstd::prelude::*;

verus! {

/// The operating-system conditions that some rule tells apart.
#[derive(Debug, Clone, Copy, PartialEq, Eq, Structural)]
pub enum IoKind {
    NotFound,
    PermissionDenied,
    AlreadyExists,
    Interrupted,
    WouldBlock,
    TimedOut,
    BrokenPipe,
    WriteZero,
    UnexpectedEof,
    InvalidData,
    InvalidInput,
    Other,
}

/// A failed system operation: its kind, and its message as it is shown.
#[derive(Debug)]
pub struct IoError {
    pub kind: IoKind,
    pub message: String,
}

/// Everything that can go wrong between the command line and the remote host.
#[derive(Debug)]
pub enum RemExecError {
    Io(IoError),
    ProcessNotFound { id: String },
    ProcessAlreadyExited { id: String },
    InvalidProcessId { id: String },
    Ssh(String),
    /// The destination is not a usable SSH host. Kept distinct from
    /// [`RemExecError::Ssh`] so it never reaches the auto-deploy classifier:
    /// nothing was spawned, so there is nothing to deploy or retry.
    BadHost(String),
    DaemonNotRunning,
    DaemonAlreadyRunning,
    Protocol(String),
    Json(String),
    ForkFailed(String),
    /// A release, or an asset of it, that does not exist.
    AssetNotFound(String),
    Other(String),
}

impl RemExecError {
    /// The message of this error.
    pub open spec fn text(self) -> Seq<char> {
        match self {
            RemExecError::Io(e) => "IO error: "@ + e.message@,
            RemExecError::ProcessNotFound { id } => "process not found: "@ + id@,
            RemExecError::ProcessAlreadyExited { id } => "process already exited: "@ + id@,
            RemExecError::InvalidProcessId { id } => "invalid process ID: "@ + id@,
            RemExecError::Ssh(m) => "SSH error: "@ + m@,
            RemExecError::BadHost(m) => m@,
            RemExecError::DaemonNotRunning => "daemon not running"@,
            RemExecError::DaemonAlreadyRunning => "daemon already running"@,
            RemExecError::Protocol(m) => "protocol error: "@ + m@,
            RemExecError::Json(m) => "JSON error: "@ + m@,
            RemExecError::ForkFailed(m) => "fork failed: "@ + m@,
            RemExecError::AssetNotFound(m) => m@,
            RemExecError::Other(m) => m@,
        }
    }

    /// The message of this error.
    pub fn message(&self) -> (r: String)
        ensures
            r@ == self.text(),
    {
        match self {
            RemExecError::Io(e) => labelled("IO error: ", e.message.as_str()),
            RemExecError::ProcessNotFound { id } => labelled("process not found: ", id.as_str()),
            RemExecError::ProcessAlreadyExited { id } => labelled(
                "process already exited: ",
                id.as_str(),
            ),
            RemExecError::InvalidProcessId { id } => labelled("invalid process ID: ", id.as_str()),
            RemExecError::Ssh(m) => labelled("SSH error: ", m.as_str()),
            RemExecError::BadHost(m) => m.clone(),
            RemExecError::DaemonNotRunning => "daemon not running".to_owned(),
            RemExecError::DaemonAlreadyRunning => "daemon already running".to_owned(),
            RemExecError::Protocol(m) => labelled("protocol error: ", m.as_str()),
            RemExecError::Json(m) => labelled("JSON error: ", m.as_str()),
            RemExecError::ForkFailed(m) => labelled("fork failed: ", m.as_str()),
            RemExecError::AssetNotFound(m) => m.clone(),
            RemExecError::Other(m) => m.clone(),
        }
    }
}

/// What an error was made with is at the end of its message: the words that it carries,
/// or the process that it is about.
pub proof fn lemma_message_tells_the_cause(e: RemExecError)
    ensures
        e matches RemExecError::Io(x) ==> crate::text::has_suffix(e.text(), x.message@),
        e matches RemExecError::ProcessNotFound { id } ==> crate::text::has_suffix(e.text(), id@),
        e matches RemExecError::ProcessAlreadyExited { id } ==> crate::text::has_suffix(
            e.text(),
            id@,
        ),
        e matches RemExecError::InvalidProcessId { id } ==> crate::text::has_suffix(e.text(), id@),
        e matches RemExecError::Ssh(m) ==> crate::text::has_suffix(e.text(), m@),
        e matches RemExecError::Protocol(m) ==> crate::text::has_suffix(e.text(), m@),
        e matches RemExecError::Json(m) ==> crate::text::has_suffix(e.text(), m@),
        e matches RemExecError::ForkFailed(m) ==> crate::text::has_suffix(e.text(), m@),
        e matches RemExecError::BadHost(m) ==> e.text() == m@,
        e matches RemExecError::AssetNotFound(m) ==> e.text() == m@,
        e matches RemExecError::Other(m) ==> e.text() == m@,
{
    let t = e.text();
    match e {
        RemExecError::Io(x) => {
            assert(t.skip(t.len() - x.message@.len()) =~= x.message@);
        },
        RemExecError::ProcessNotFound { id } => {
            assert(t.skip(t.len() - id@.len()) =~= id@);
        },
        RemExecError::ProcessAlreadyExited { id } => {
            assert(t.skip(t.len() - id@.len()) =~= id@);
        },
        RemExecError::InvalidProcessId { id } => {
            assert(t.skip(t.len() - id@.len()) =~= id@);
        },
        RemExecError::Ssh(m) => {
            assert(t.skip(t.len() - m@.len()) =~= m@);
        },
        RemExecError::Protocol(m) => {
            assert(t.skip(t.len() - m@.len()) =~= m@);
        },
        RemExecError::Json(m) => {
            assert(t.skip(t.len() - m@.len()) =~= m@);
        },
        RemExecError::ForkFailed(m) => {
            assert(t.skip(t.len() - m@.len()) =~= m@);
        },
        _ => {},
    }
}

/// `label` followed by `rest`.
pub fn labelled(label: &str, rest: &str) -> (r: String)
    ensures
        r@ == label@ + rest@,
{
    let mut m = label.to_owned();
    m.append(rest);
    m
}

} // verus!
