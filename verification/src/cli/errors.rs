//! Failures as typed answers: one object, with a code to branch on.

use vstd::prelude::*;

use crate::deploy::{
    not_deployed_hint, not_deployed_response, not_deployed_text, DeployStatus, VERSION,
};
use crate::error::{labelled, IoError, IoKind, RemExecError};
use crate::number::{decimal, render_u64};
use crate::protocol::{
    code_of_io, error_with_hint, io_error_code, is_error, parse_octal_mode, ErrorCode, Response,
};
use crate::ssh::{classify_ssh_failure, hint_for, ssh_failure, transport_hint};
use crate::text::{contains, contains_text, starts_with};

verus! {

// ---------------------------------------------------------------------------
// Transport failures
// ---------------------------------------------------------------------------

/// The message alone says what failed: SSH itself, or an auto-deploy.
pub open spec fn classifies(message: Seq<char>) -> bool {
    ssh_failure(message) is Some || contains_text(message, "auto-deploy to "@)
}

/// `r` is the answer for a message that says what failed.
pub open spec fn is_classified(r: Response, message: Seq<char>) -> bool {
    match ssh_failure(message) {
        Some(code) => is_error(r, code, message, hint_for(code)),
        None => is_error(r, ErrorCode::NotDeployed, message, None),
    }
}

/// Shared classification for the direct and the daemon path: an SSH failure has
/// its own code and hint; a failed auto-deploy already carries the precise reason
/// and is surfaced verbatim.
pub fn classify_transport_message(message: &str) -> (r: Option<Response>)
    ensures
        r is Some <==> classifies(message@),
        r matches Some(resp) ==> is_classified(resp, message@),
{
    if let Some(code) = classify_ssh_failure(message) {
        return match transport_hint(code) {
            Some(hint) => Some(error_with_hint(code, message, hint)),
            None => Some(Response::error_code(code, message)),
        };
    }
    if contains(message, "auto-deploy to ") {
        return Some(Response::error_code(ErrorCode::NotDeployed, message));
    }
    None
}

/// `r` is the answer for a transport failure on `host`, where a probe found
/// `status`.
pub open spec fn is_transport_error(
    r: Response,
    host: Seq<char>,
    e: RemExecError,
    status: DeployStatus,
) -> bool {
    if classifies(e.text()) {
        is_classified(r, e.text())
    } else if status is Missing || status is Incompatible {
        is_error(
            r,
            ErrorCode::NotDeployed,
            not_deployed_text(host, status),
            Some(not_deployed_hint(host)),
        )
    } else {
        is_error(r, ErrorCode::Internal, e.text(), None)
    }
}

/// Turn a transport failure into a typed answer. `status` is what a version probe
/// found; it counts only where the message alone does not say what failed. Every
/// error carries a code: `internal` is the answer where there is no better one.
pub fn transport_error_json(host: &str, e: &RemExecError, status: &DeployStatus) -> (r: Response)
    ensures
        is_transport_error(r, host@, *e, *status),
{
    let message = e.message();
    if let Some(response) = classify_transport_message(message.as_str()) {
        return response;
    }
    match status {
        DeployStatus::Missing | DeployStatus::Incompatible { .. } => {
            not_deployed_response(host, status)
        },
        _ => Response::error_code(ErrorCode::Internal, message.as_str()),
    }
}

/// Every transport failure is answered by an error with a code: what SSH says decides
/// first, then an auto-deploy that failed, then a host that lacks rxd, and the rest is
/// internal. Whatever was said of the failure is in the message, unless it is about
/// the missing rxd, for which there is a hint.
pub proof fn lemma_transport_error_is_told(
    r: Response,
    host: Seq<char>,
    e: RemExecError,
    status: DeployStatus,
)
    requires
        is_transport_error(r, host, e, status),
    ensures
        r matches Response::Error { code, message, hint, .. } && {
            &&& ssh_failure(e.text()) is Some ==> code == ssh_failure(e.text()) && message@
                == e.text() && hint is Some
            &&& ssh_failure(e.text()) is None && contains_text(e.text(), "auto-deploy to "@)
                ==> code == Some(ErrorCode::NotDeployed) && message@ == e.text()
            &&& !classifies(e.text()) && (status is Missing || status is Incompatible) ==> code
                == Some(ErrorCode::NotDeployed) && hint is Some
            &&& !classifies(e.text()) && (status is Current || status is Unknown) ==> code == Some(
                ErrorCode::Internal,
            ) && message@ == e.text()
        },
{
    crate::ssh::lemma_failure_is_what_ssh_says(e.text());
}

/// Classify an error message that the daemon relayed. It has no host to probe,
/// so what the message does not say is `internal`.
pub fn daemon_error_json(message: &str) -> (r: Response)
    ensures
        classifies(message@) ==> is_classified(r, message@),
        !classifies(message@) ==> is_error(r, ErrorCode::Internal, message@, None),
{
    if let Some(response) = classify_transport_message(message) {
        return response;
    }
    Response::error_code(ErrorCode::Internal, message)
}

/// The codes an agent branches on do not depend on the route: a failure that the
/// message explains has the same answer through the daemon as over SSH.
pub proof fn lemma_routes_classify_alike(
    host: Seq<char>,
    e: RemExecError,
    status: DeployStatus,
    direct: Response,
    relayed: Response,
)
    requires
        classifies(e.text()),
        is_transport_error(direct, host, e, status),
        is_classified(relayed, e.text()),
    ensures
        direct->Error_code == relayed->Error_code,
        direct->Error_message@ == relayed->Error_message@,
        direct->Error_retryable == relayed->Error_retryable,
{
}

/// The answer where the local daemon could not be reached.
pub fn daemon_unreachable(e: &RemExecError) -> (r: Response)
    ensures
        is_error(r, ErrorCode::Internal, "local daemon: "@ + e.text(), None),
{
    Response::error_code(
        ErrorCode::Internal,
        labelled("local daemon: ", e.message().as_str()).as_str(),
    )
}

/// The answer for a daemon control command that failed.
pub fn report_failure(e: &RemExecError) -> (r: Response)
    ensures
        is_error(r, ErrorCode::Internal, e.text(), None),
{
    Response::error_code(ErrorCode::Internal, e.message().as_str())
}

// ---------------------------------------------------------------------------
// Local failures
// ---------------------------------------------------------------------------

/// The hint for a local file that could not be written.
pub open spec fn write_hint(kind: IoKind) -> Option<Seq<char>> {
    match kind {
        IoKind::NotFound => Some(
            "the local parent directory does not exist — create it, or pick another path"@,
        ),
        IoKind::PermissionDenied => Some(
            "no write permission for that local path — pick another destination"@,
        ),
        _ => None,
    }
}

/// `r` says that a local file could not be written.
pub open spec fn is_local_io_error(r: Response, local: Seq<char>, e: IoError) -> bool {
    is_error(r, code_of_io(e.kind), "cannot write "@ + local + ": "@ + e.message@, write_hint(e.kind))
}

/// Turn a local filesystem failure during a download into a typed answer. The
/// remote answered correctly, so this never travels through the transport
/// classifier.
pub fn local_io_error_json(local: &str, e: &IoError) -> (r: Response)
    ensures
        is_local_io_error(r, local@, *e),
{
    let mut text = labelled("cannot write ", local);
    text.append(": ");
    text.append(e.message.as_str());
    let code = io_error_code(e);
    match e.kind {
        IoKind::NotFound => error_with_hint(
            code,
            text.as_str(),
            "the local parent directory does not exist — create it, or pick another path",
        ),
        IoKind::PermissionDenied => error_with_hint(
            code,
            text.as_str(),
            "no write permission for that local path — pick another destination",
        ),
        _ => Response::error_code(code, text.as_str()),
    }
}

/// The hint for a local file that could not be read.
pub open spec fn source_hint(kind: IoKind) -> Option<Seq<char>> {
    match kind {
        IoKind::NotFound => Some(
            "the local source path does not exist — check the path, or use `-` to read stdin"@,
        ),
        IoKind::PermissionDenied => Some("no read permission for that local path"@),
        _ => None,
    }
}

/// Local failures that the caller can mend come with a hint, whichever way the file
/// goes, and others do not; a file that is not there is told from one that may not be
/// touched.
pub proof fn lemma_local_failures_are_told(r: Response, local: Seq<char>, e: IoError)
    ensures
        write_hint(e.kind) is Some <==> e.kind is NotFound || e.kind is PermissionDenied,
        source_hint(e.kind) is Some <==> e.kind is NotFound || e.kind is PermissionDenied,
        is_local_io_error(r, local, e) ==> (r matches Response::Error { code, hint, .. } && {
            &&& code == Some(ErrorCode::NotFound) <==> e.kind is NotFound
            &&& code == Some(ErrorCode::BadRequest) <==> e.kind is PermissionDenied
            &&& code == Some(ErrorCode::Internal) <==> e.kind !is NotFound && e.kind
                !is PermissionDenied
            &&& hint is Some <==> code != Some(ErrorCode::Internal)
        }),
{
}

/// The hints say what is wrong: what is not there, or what is not permitted, for writing
/// and for reading.
pub proof fn lemma_local_hints_say_what_is_wrong()
    ensures
        write_hint(IoKind::NotFound) matches Some(h) && contains_text(h, "does not exist"@),
        write_hint(IoKind::PermissionDenied) matches Some(h) && contains_text(
            h,
            "no write permission"@,
        ),
        source_hint(IoKind::NotFound) matches Some(h) && contains_text(h, "does not exist"@),
        source_hint(IoKind::PermissionDenied) matches Some(h) && contains_text(
            h,
            "no read permission"@,
        ),
{
    reveal_strlit("does not exist");
    reveal_strlit("no write permission");
    reveal_strlit("no read permission");
    reveal_strlit("the local parent directory does not exist — create it, or pick another path");
    reveal_strlit("no write permission for that local path — pick another destination");
    reveal_strlit(
        "the local source path does not exist — check the path, or use `-` to read stdin",
    );
    reveal_strlit("no read permission for that local path");
    let a = write_hint(IoKind::NotFound)->0;
    assert(a.subrange(27, 41) =~= "does not exist"@);
    assert(a =~= a.take(27) + "does not exist"@ + a.skip(41));
    crate::text::lemma_part_occurs(a.take(27), "does not exist"@, a.skip(41));
    let b = write_hint(IoKind::PermissionDenied)->0;
    assert(b.take(19) =~= "no write permission"@);
    assert(b =~= Seq::<char>::empty() + "no write permission"@ + b.skip(19));
    crate::text::lemma_part_occurs(Seq::empty(), "no write permission"@, b.skip(19));
    let c = source_hint(IoKind::NotFound)->0;
    assert(c.subrange(22, 36) =~= "does not exist"@);
    assert(c =~= c.take(22) + "does not exist"@ + c.skip(36));
    crate::text::lemma_part_occurs(c.take(22), "does not exist"@, c.skip(36));
    let d = source_hint(IoKind::PermissionDenied)->0;
    assert(d.take(18) =~= "no read permission"@);
    assert(d =~= Seq::<char>::empty() + "no read permission"@ + d.skip(18));
    crate::text::lemma_part_occurs(Seq::empty(), "no read permission"@, d.skip(18));
}

/// Turn a failure to read the file being uploaded into a typed answer: a missing
/// local path is `not_found`, not `not_deployed`.
pub fn local_put_source_error_json(local: &str, e: &IoError) -> (r: Response)
    ensures
        is_error(
            r,
            code_of_io(e.kind),
            "cannot read "@ + local@ + ": "@ + e.message@,
            source_hint(e.kind),
        ),
{
    let mut text = labelled("cannot read ", local);
    text.append(": ");
    text.append(e.message.as_str());
    let code = io_error_code(e);
    match e.kind {
        IoKind::NotFound => error_with_hint(
            code,
            text.as_str(),
            "the local source path does not exist — check the path, or use `-` to read stdin",
        ),
        IoKind::PermissionDenied => error_with_hint(
            code,
            text.as_str(),
            "no read permission for that local path",
        ),
        _ => Response::error_code(code, text.as_str()),
    }
}

/// Cap on stdin inlined into a request. Larger inputs should use the streaming
/// path (`rx start --pipe`), which has no size limit.
pub const INLINE_STDIN_CAP: usize = 4194304;

/// Why inline stdin could not be used.
///
/// Too much input is the caller's to fix and there is another command that takes
/// it, while a read failure is ours.
#[derive(Debug)]
pub enum StdinError {
    /// More than [`INLINE_STDIN_CAP`] bytes were piped in.
    TooLarge,
    /// Reading local stdin failed.
    Io(IoError),
}

/// `r` answers for stdin that could not be used.
pub open spec fn is_stdin_error(r: Response, e: StdinError) -> bool {
    match e {
        StdinError::TooLarge => is_error(
            r,
            ErrorCode::BadRequest,
            "stdin exceeds the "@ + decimal(INLINE_STDIN_CAP as nat) + "-byte inline cap"@,
            Some("use `rx start --pipe HOST -- CMD`, which streams stdin unbounded"@),
        ),
        StdinError::Io(e) => is_error(
            r,
            ErrorCode::Internal,
            "reading stdin: "@ + e.message@,
            None,
        ),
    }
}

impl StdinError {
    /// Report as a typed answer.
    pub fn into_response(&self) -> (r: Response)
        ensures
            is_stdin_error(r, *self),
    {
        match self {
            StdinError::TooLarge => {
                let mut text = labelled(
                    "stdin exceeds the ",
                    render_u64(INLINE_STDIN_CAP as u64).as_str(),
                );
                text.append("-byte inline cap");
                error_with_hint(
                    ErrorCode::BadRequest,
                    text.as_str(),
                    "use `rx start --pipe HOST -- CMD`, which streams stdin unbounded",
                )
            },
            StdinError::Io(e) => Response::error_code(
                ErrorCode::Internal,
                labelled("reading stdin: ", e.message.as_str()).as_str(),
            ),
        }
    }
}

/// What was piped into a call.
pub open spec fn inline_stdin(is_terminal: bool, read: Result<Vec<u8>, IoError>) -> Result<
    Option<Vec<u8>>,
    StdinError,
> {
    if is_terminal {
        Ok(None)
    } else {
        match read {
            Err(e) => Err(StdinError::Io(e)),
            Ok(b) => if b@.len() > INLINE_STDIN_CAP {
                Err(StdinError::TooLarge)
            } else {
                Ok(Some(b))
            },
        }
    }
}

/// What is piped in arrives whole or is refused: up to 4 MiB are taken as they are, an
/// empty input too, and more than that is the caller's mistake, never cut off. A
/// terminal is not read.
pub proof fn lemma_inline_stdin_is_whole(
    is_terminal: bool,
    read: Result<Vec<u8>, IoError>,
    r: Response,
)
    ensures
        is_terminal ==> inline_stdin(is_terminal, read) == Ok::<Option<Vec<u8>>, StdinError>(None),
        !is_terminal ==> (read matches Ok(b) ==> (b@.len() <= 4 * 1024 * 1024 <==> inline_stdin(
            is_terminal,
            read,
        ) == Ok::<Option<Vec<u8>>, StdinError>(Some(b)))),
        inline_stdin(is_terminal, read) matches Ok(Some(b)) ==> read == Ok::<Vec<u8>, IoError>(b),
        inline_stdin(is_terminal, read) matches Err(e) ==> (e is TooLarge <==> read is Ok),
        is_stdin_error(r, StdinError::TooLarge) ==> (r matches Response::Error { code, hint, .. }
            && code == Some(ErrorCode::BadRequest) && hint is Some),
        forall|e: IoError| #[trigger]
            is_stdin_error(r, StdinError::Io(e)) ==> (r matches Response::Error { code, .. } && code
                == Some(ErrorCode::Internal)),
{
}

/// What was piped into a call: nothing from a terminal, else the bytes that were
/// read, of which one more than the cap is asked for to see that it is exceeded.
pub fn read_inline_stdin(is_terminal: bool, read: Result<Vec<u8>, IoError>) -> (r: Result<
    Option<Vec<u8>>,
    StdinError,
>)
    ensures
        r == inline_stdin(is_terminal, read),
{
    if is_terminal {
        return Ok(None);
    }
    match read {
        Err(e) => Err(StdinError::Io(e)),
        Ok(b) => {
            if b.len() > INLINE_STDIN_CAP {
                Err(StdinError::TooLarge)
            } else {
                Ok(Some(b))
            }
        },
    }
}

/// Parse an octal file mode like `0644`, `644`, or `0o644`.
pub fn parse_mode(s: &str) -> (r: Result<u32, String>)
    ensures
        match crate::protocol::mode_of(s@) {
            Some(n) => r matches Ok(m) && m == n,
            None => r matches Err(e) && e@ == "invalid --mode '"@ + s@
                + "' (expected octal like 0644)"@,
        },
{
    match parse_octal_mode(s) {
        Ok(m) => Ok(m),
        Err(_) => {
            let mut text = labelled("invalid --mode '", s);
            text.append("' (expected octal like 0644)");
            Err(text)
        },
    }
}

// ---------------------------------------------------------------------------
// Answers that need another name
// ---------------------------------------------------------------------------

/// An rxd too old for streamed uploads rejects them as a malformed request.
pub open spec fn is_old_rxd(resp: Response) -> bool {
    resp matches Response::Error { code, message, .. } && code == Some(ErrorCode::BadRequest)
        && contains_text(message@, "put_stream"@)
}

/// `r` is `resp`, relabelled where it comes from an rxd too old for streamed
/// uploads.
pub open spec fn is_explained(host: Seq<char>, resp: Response, r: Response) -> bool {
    if is_old_rxd(resp) {
        is_error(
            r,
            ErrorCode::NotDeployed,
            "rxd on "@ + host
                + " is too old for `rx put -`: it does not understand streamed stdin transfers"@,
            Some(
                "run `rx deploy "@ + host + "` to install rxd "@ + VERSION@
                    + ", then re-run the pipeline"@,
            ),
        )
    } else {
        r == resp
    }
}

/// Every answer but one is passed on as it came; the exception is a request that was
/// called malformed for the streamed upload it asked for, which becomes a deploy
/// problem with a hint.
pub proof fn lemma_only_an_old_rxd_is_relabelled(host: Seq<char>, resp: Response, r: Response)
    requires
        is_explained(host, resp, r),
    ensures
        resp !is Error ==> r == resp,
        (resp matches Response::Error { code, .. } && code != Some(ErrorCode::BadRequest)) ==> r
            == resp,
        (resp matches Response::Error { message, .. } && !contains_text(message@, "put_stream"@))
            ==> r == resp,
        (resp matches Response::Error { code, message, .. } && code == Some(ErrorCode::BadRequest)
            && contains_text(message@, "put_stream"@)) ==> (r matches Response::Error {
            code,
            hint,
            ..
        } && code == Some(ErrorCode::NotDeployed) && hint is Some),
{
}

/// An rxd too old for streamed uploads is a deploy problem wearing the wrong
/// code: relabel it, so an agent branches on `not_deployed` here as everywhere.
pub fn explain_old_rxd(host: &str, resp: Response) -> (r: Response)
    ensures
        is_explained(host@, resp, r),
{
    let old = match &resp {
        Response::Error { code: Some(ErrorCode::BadRequest), message, .. } => contains(
            message.as_str(),
            "put_stream",
        ),
        _ => false,
    };
    if !old {
        return resp;
    }
    let mut text = labelled("rxd on ", host);
    text.append(" is too old for `rx put -`: it does not understand streamed stdin transfers");
    let mut hint = labelled("run `rx deploy ", host);
    hint.append("` to install rxd ");
    hint.append(VERSION);
    hint.append(", then re-run the pipeline");
    error_with_hint(ErrorCode::NotDeployed, text.as_str(), hint.as_str())
}

/// `r` says why binaries could not be fetched.
pub open spec fn is_fetch_error(r: Response, e: RemExecError) -> bool {
    match e {
        RemExecError::AssetNotFound(m) => is_error(
            r,
            ErrorCode::DeployFailed,
            m@,
            Some(
                "check the tag with `gh release list` (or the releases page); `--version vX.Y.Z` selects another one"@,
            ),
        ),
        _ => is_error(
            r,
            if crate::text::has_prefix(e.text(), "unsupported architecture"@) {
                ErrorCode::BadRequest
            } else {
                ErrorCode::Internal
            },
            e.text(),
            None,
        ),
    }
}

/// A release that does not exist and an architecture that there is none for are not
/// worth a second attempt, and the first is told with a hint; any other failure is
/// internal, in its own words.
pub proof fn lemma_fetch_error_is_told(r: Response, e: RemExecError, arch: Seq<char>)
    requires
        is_fetch_error(r, e),
    ensures
        r matches Response::Error { code, message, retryable, hint } && {
            &&& e is AssetNotFound ==> code == Some(ErrorCode::DeployFailed) && hint is Some
            &&& code == Some(ErrorCode::DeployFailed) ==> e is AssetNotFound
            &&& e !is AssetNotFound ==> message@ == e.text()
            &&& (e matches RemExecError::Other(m) && m@
                == crate::deploy::cache::unsupported_arch_text(arch)) ==> code == Some(
                ErrorCode::BadRequest,
            ) && !retryable
            &&& e is Io ==> (code == Some(ErrorCode::Internal)
                || crate::text::has_prefix(e.text(), "unsupported architecture"@))
        },
{
    reveal_strlit("unsupported architecture ");
    reveal_strlit("unsupported architecture");
    let t = crate::deploy::cache::unsupported_arch_text(arch);
    assert(t.take(24) =~= "unsupported architecture"@);
}

/// The answer for binaries that could not be fetched. A release that does not
/// exist, and an architecture that is not supported, do not appear on a second
/// attempt, so they never arrive as the code that means "retry".
pub fn cache_fetch_error(e: &RemExecError) -> (r: Response)
    ensures
        is_fetch_error(r, *e),
{
    match e {
        RemExecError::AssetNotFound(m) => error_with_hint(
            ErrorCode::DeployFailed,
            m.as_str(),
            "check the tag with `gh release list` (or the releases page); `--version vX.Y.Z` selects another one",
        ),
        _ => {
            let message = e.message();
            if starts_with(message.as_str(), "unsupported architecture") {
                Response::error_code(ErrorCode::BadRequest, message.as_str())
            } else {
                Response::error_code(ErrorCode::Internal, message.as_str())
            }
        },
    }
}

} // verus!
