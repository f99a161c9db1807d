//! What the daemon answers, and what it has done for it.

use vstd::prelude::*;
use vstd::utf8::encode_utf8;

use crate::daemon::state::{process_cache, DaemonState};
use crate::deploy::DeployResult;
use crate::encoding::{
    base64_bytes, base64_decode, fault_text, is_ascii_white, is_foreign,
    lemma_foreign_byte_is_rejected,
};
use crate::error::{labelled, RemExecError};
use crate::json::{
    fields_model, lemma_member_from, lookup, lookup_text, member_from, push_field, typed, Json,
    JsonModel,
};
use crate::process::recorded_number;
use crate::protocol::{is_error, DaemonRequest, DaemonResponse, ErrorCode, Request, Response};
use crate::remote::actions::{is_output, len_or_zero, output_response};
use crate::text::{slice_view, string_view, trim};

verus! {

// ---------------------------------------------------------------------------
// Control commands
// ---------------------------------------------------------------------------

/// The fields that every control command answers with.
pub open spec fn outcome_fields(action: Seq<char>, running: bool, changed: bool) -> Seq<
    (Seq<char>, JsonModel),
> {
    seq![
        ("type"@, JsonModel::Text("daemon"@)),
        ("action"@, JsonModel::Text(action)),
        ("running"@, JsonModel::Bool(running)),
        ("changed"@, JsonModel::Bool(changed)),
    ]
}

/// The object a daemon control command produces.
pub fn outcome(action: &str, running: bool, changed: bool) -> (r: Vec<(String, Json)>)
    ensures
        fields_model(r@) == outcome_fields(action@, running, changed),
{
    let mut fields = typed("daemon");
    push_field(&mut fields, "action", Json::text(action));
    push_field(&mut fields, "running", Json::Bool(running));
    push_field(&mut fields, "changed", Json::Bool(changed));
    assert(fields_model(fields@) =~= outcome_fields(action@, running, changed));
    fields
}

/// The recorded daemon PID, if the file is there and parses.
pub fn recorded_pid(content: Option<&str>) -> (r: Option<u32>)
    ensures
        r is Some <==> recorded_number(slice_view(content), u32::MAX as int) is Some,
        r matches Some(n) ==> recorded_number(slice_view(content), u32::MAX as int) == Some(
            n as int,
        ),
{
    match content {
        Some(s) => crate::number::parse_u32(trim(s).as_str()),
        None => None,
    }
}

/// The object with the PID of the daemon, where it is known.
pub open spec fn with_pid(fields: Seq<(Seq<char>, JsonModel)>, pid: Option<u32>) -> JsonModel {
    match pid {
        Some(n) => JsonModel::Object(fields.push(("pid"@, JsonModel::Int(n as int)))),
        None => JsonModel::Object(fields),
    }
}

proof fn lemma_control_names()
    ensures
        "type"@.len() == 4 && "type"@[0] == 't',
        "action"@.len() == 6 && "action"@[0] == 'a',
        "running"@.len() == 7 && "running"@[0] == 'r',
        "changed"@.len() == 7 && "changed"@[0] == 'c',
        "pid"@.len() == 3,
        "detail"@.len() == 6 && "detail"@[0] == 'd',
        "host"@.len() == 4 && "host"@[0] == 'h',
        "arch"@.len() == 4 && "arch"@[0] == 'a',
        "version"@.len() == 7 && "version"@[0] == 'v',
        "hosts"@.len() == 5,
        "processes"@.len() == 9,
{
    reveal_strlit("type");
    reveal_strlit("action");
    reveal_strlit("running");
    reveal_strlit("changed");
    reveal_strlit("pid");
    reveal_strlit("detail");
    reveal_strlit("host");
    reveal_strlit("arch");
    reveal_strlit("version");
    reveal_strlit("hosts");
    reveal_strlit("processes");
}

/// `v` says what a control command did: whether the daemon runs now, and whether that
/// changed anything.
pub open spec fn tells_outcome(v: JsonModel, action: Seq<char>, running: bool, changed: bool) -> bool {
    &&& lookup_text(v, "type"@) == Some("daemon"@)
    &&& lookup_text(v, "action"@) == Some(action)
    &&& lookup(v, "running"@) == Some(JsonModel::Bool(running))
    &&& lookup(v, "changed"@) == Some(JsonModel::Bool(changed))
}

/// The answer to a control command reads back, with the PID where one is known, and
/// with whatever detail was added.
pub proof fn lemma_outcome_reads_back(
    action: Seq<char>,
    running: bool,
    changed: bool,
    pid: u32,
    detail: JsonModel,
)
    ensures
        tells_outcome(
            JsonModel::Object(outcome_fields(action, running, changed)),
            action,
            running,
            changed,
        ),
        tells_outcome(
            with_pid(outcome_fields(action, running, changed), Some(pid)),
            action,
            running,
            changed,
        ),
        lookup(with_pid(outcome_fields(action, running, changed), Some(pid)), "pid"@) == Some(
            JsonModel::Int(pid as int),
        ),
        lookup(with_pid(outcome_fields(action, running, changed), None), "pid"@) is None,
        tells_outcome(
            JsonModel::Object(outcome_fields(action, running, changed).push(("detail"@, detail))),
            action,
            running,
            changed,
        ),
        lookup(
            JsonModel::Object(outcome_fields(action, running, changed).push(("detail"@, detail))),
            "detail"@,
        ) == Some(detail),
{
    lemma_control_names();
    let f = outcome_fields(action, running, changed);
    let p = f.push(("pid"@, JsonModel::Int(pid as int)));
    let d = f.push(("detail"@, detail));
    reveal_with_fuel(member_from, 6);
    lemma_member_from(f, "type"@);
    lemma_member_from(f, "action"@);
    lemma_member_from(f, "running"@);
    lemma_member_from(f, "changed"@);
    lemma_member_from(f, "pid"@);
    lemma_member_from(p, "type"@);
    lemma_member_from(p, "action"@);
    lemma_member_from(p, "running"@);
    lemma_member_from(p, "changed"@);
    lemma_member_from(p, "pid"@);
    lemma_member_from(d, "type"@);
    lemma_member_from(d, "action"@);
    lemma_member_from(d, "running"@);
    lemma_member_from(d, "changed"@);
    lemma_member_from(d, "detail"@);
}

/// How a start begins.
#[derive(Debug)]
pub enum StartPlan {
    /// A daemon is running; that is the requested state, and this is the answer.
    Already(Json),
    /// Launch one; with `remove_stale`, remove the socket that nobody serves.
    Launch { remove_stale: bool },
}

/// `r` is how a start begins.
pub open spec fn is_start_plan(
    r: StartPlan,
    socket_exists: bool,
    running: bool,
    pid: Option<u32>,
) -> bool {
    if socket_exists && running {
        r matches StartPlan::Already(v) && v.model() == with_pid(
            outcome_fields("start"@, true, false),
            pid,
        )
    } else {
        r == (StartPlan::Launch { remove_stale: socket_exists })
    }
}

/// No second daemon is launched beside one that serves its socket: that one is the
/// answer, unchanged. Otherwise one is launched, and a socket that nobody serves is
/// removed for it.
pub proof fn lemma_one_daemon_is_launched(
    r: StartPlan,
    socket_exists: bool,
    running: bool,
    pid: Option<u32>,
)
    requires
        is_start_plan(r, socket_exists, running, pid),
    ensures
        r is Already <==> socket_exists && running,
        r matches StartPlan::Launch { remove_stale } ==> (remove_stale <==> socket_exists),
        r matches StartPlan::Already(v) ==> (pid matches Some(n) ==> tells_outcome(
            v.model(),
            "start"@,
            true,
            false,
        ) && lookup(v.model(), "pid"@) == Some(JsonModel::Int(n as int))),
{
    if let Some(n) = pid {
        lemma_outcome_reads_back("start"@, true, false, n, JsonModel::Bool(true));
    }
}

/// How a start begins. A daemon that is already running is the requested state,
/// not an error.
pub fn start_daemon(socket_exists: bool, running: bool, pid: Option<u32>) -> (r: StartPlan)
    ensures
        is_start_plan(r, socket_exists, running, pid),
{
    if socket_exists && running {
        let mut fields = outcome("start", true, false);
        if let Some(n) = pid {
            push_field(&mut fields, "pid", Json::Unsigned(n as u64));
        }
        return StartPlan::Already(Json::object(fields));
    }
    StartPlan::Launch { remove_stale: socket_exists }
}

/// The error for a fork that failed.
pub fn fork_failed(e: &str) -> (r: RemExecError)
    ensures
        r matches RemExecError::Other(m) && m@ == "fork failed: "@ + e@,
{
    RemExecError::Other(labelled("fork failed: ", e))
}

/// `r` is what a start answers once the daemon was launched.
pub open spec fn is_launched(r: Result<Json, RemExecError>, child: u32, running: bool) -> bool {
    if running {
        r matches Ok(v) && v.model() == with_pid(
            outcome_fields("start"@, true, true),
            Some(child),
        )
    } else {
        r matches Err(RemExecError::Other(m)) && m@
            == "daemon failed to start (socket never appeared)"@
    }
}

/// What a start answers once the daemon was launched and given a moment.
pub fn launched(child: u32, running: bool) -> (r: Result<Json, RemExecError>)
    ensures
        is_launched(r, child, running),
{
    if !running {
        return Err(
            RemExecError::Other("daemon failed to start (socket never appeared)".to_owned()),
        );
    }
    let mut fields = outcome("start", true, true);
    push_field(&mut fields, "pid", Json::Unsigned(child as u64));
    Ok(Json::object(fields))
}

/// `r` is what a stop answers.
pub open spec fn is_stopped(
    r: Result<Json, RemExecError>,
    reply: Result<DaemonResponse, RemExecError>,
) -> bool {
    match reply {
        Ok(_) => r matches Ok(v) && v.model() == JsonModel::Object(
            outcome_fields("stop"@, false, true),
        ),
        Err(RemExecError::DaemonNotRunning) => r matches Ok(v) && v.model() == JsonModel::Object(
            outcome_fields("stop"@, false, false),
        ),
        Err(e) => r == Err::<Json, RemExecError>(e),
    }
}

/// What a stop answers: a daemon that is not running is the requested state.
pub fn stop_daemon(reply: Result<DaemonResponse, RemExecError>) -> (r: Result<Json, RemExecError>)
    ensures
        is_stopped(r, reply),
{
    match reply {
        Ok(_) => Ok(Json::object(outcome("stop", false, true))),
        Err(RemExecError::DaemonNotRunning) => Ok(Json::object(outcome("stop", false, false))),
        Err(e) => Err(e),
    }
}

/// `r` is what a status command answers.
pub open spec fn is_daemon_status(
    r: Result<Json, RemExecError>,
    reply: Result<DaemonResponse, RemExecError>,
) -> bool {
    match reply {
        Ok(DaemonResponse::Answer { data }) => r matches Ok(v) && v.model() == JsonModel::Object(
            outcome_fields("status"@, true, false).push(("detail"@, data.model())),
        ),
        Ok(_) => r matches Ok(v) && v.model() == JsonModel::Object(
            outcome_fields("status"@, true, false),
        ),
        Err(RemExecError::DaemonNotRunning) => r matches Ok(v) && v.model() == JsonModel::Object(
            outcome_fields("status"@, false, false),
        ),
        Err(e) => r == Err::<Json, RemExecError>(e),
    }
}

/// Control commands tell the state that they leave: a daemon that was launched runs,
/// one that was stopped does not, one that answers a status runs and its answer is the
/// detail, and one that was not running is no failure. Any other failure is passed on.
pub proof fn lemma_control_commands_tell_the_state(
    launch: Result<Json, RemExecError>,
    stop: Result<Json, RemExecError>,
    status: Result<Json, RemExecError>,
    child: u32,
    running: bool,
    reply: Result<DaemonResponse, RemExecError>,
)
    requires
        is_launched(launch, child, running),
        is_stopped(stop, reply),
        is_daemon_status(status, reply),
    ensures
        launch is Ok <==> running,
        launch matches Ok(v) ==> tells_outcome(v.model(), "start"@, true, true) && lookup(
            v.model(),
            "pid"@,
        ) == Some(JsonModel::Int(child as int)),
        stop matches Ok(v) ==> tells_outcome(v.model(), "stop"@, false, reply is Ok),
        status matches Ok(v) ==> tells_outcome(v.model(), "status"@, reply is Ok, false),
        (reply matches Ok(a) && a is Answer) ==> (reply matches Ok(DaemonResponse::Answer { data })
            && (status matches Ok(v) && lookup(v.model(), "detail"@) == Some(data.model()))),
        reply is Ok || (reply matches Err(e) && e is DaemonNotRunning) <==> stop is Ok,
        stop is Ok <==> status is Ok,
        reply matches Err(e) ==> (e !is DaemonNotRunning ==> stop == Err::<Json, RemExecError>(e)
            && status == Err::<Json, RemExecError>(e)),
{
    let detail = match reply {
        Ok(DaemonResponse::Answer { data }) => data.model(),
        _ => JsonModel::Bool(true),
    };
    lemma_outcome_reads_back("start"@, true, true, child, detail);
    lemma_outcome_reads_back("stop"@, false, true, child, detail);
    lemma_outcome_reads_back("stop"@, false, false, child, detail);
    lemma_outcome_reads_back("status"@, true, false, child, detail);
    lemma_outcome_reads_back("status"@, false, false, child, detail);
}

/// Whether the daemon is running, with its own status payload when it is.
pub fn daemon_status(reply: Result<DaemonResponse, RemExecError>) -> (r: Result<Json, RemExecError>)
    ensures
        is_daemon_status(r, reply),
{
    match reply {
        Ok(DaemonResponse::Answer { data }) => {
            let mut fields = outcome("status", true, false);
            push_field(&mut fields, "detail", data);
            Ok(Json::object(fields))
        },
        Ok(_) => Ok(Json::object(outcome("status", true, false))),
        Err(RemExecError::DaemonNotRunning) => Ok(Json::object(outcome("status", false, false))),
        Err(e) => Err(e),
    }
}

// ---------------------------------------------------------------------------
// Requests
// ---------------------------------------------------------------------------

/// The answer to bytes that are not a request.
pub fn handle_connection(e: &str) -> (r: DaemonResponse)
    ensures
        r matches DaemonResponse::Error { message } && message@ == "invalid request: "@ + e@,
{
    DaemonResponse::Error { message: labelled("invalid request: ", e) }
}

/// `r` answers with what `response` says.
pub open spec fn wraps(r: DaemonResponse, response: Response) -> bool {
    r matches DaemonResponse::Answer { data } && data.model() == JsonModel::Object(
        response.fields(),
    )
}

/// An answer of rxd as an answer of the daemon.
pub fn wrap_response(response: &Response) -> (r: DaemonResponse)
    ensures
        wraps(r, *response),
{
    DaemonResponse::Answer { data: response.to_value() }
}

/// What a request asks of the daemon.
#[derive(Debug)]
pub enum Dispatch {
    /// Nothing: this is the answer.
    Reply(DaemonResponse),
    /// Forward this to the host.
    Forward { host: String, request: Request, body: Vec<u8> },
    /// Start this on the host, and stream its output.
    Start { host: String, request: Request },
    /// Read this from the cache, or forward it.
    Read { host: String, id: String, stream: String, offset: Option<u64>, limit: Option<u64> },
    /// Forward this to the host, then drop what is cached of it.
    Clean { host: String, request: Request },
    /// Deploy rxd to the host.
    Deploy { host: String },
    /// Report what is tracked.
    Status,
    /// Stop serving.
    Stop,
}

/// `r` answers that a field of the request is not base64.
pub open spec fn rejects_base64(r: Dispatch, label: Seq<char>, text: Seq<char>) -> bool {
    r matches Dispatch::Reply(DaemonResponse::Answer { data }) && exists|resp: Response|
        #[trigger] is_error(
            resp,
            ErrorCode::BadRequest,
            label + fault_text(base64_bytes(text)->Err_0),
            None,
        ) && data.model() == JsonModel::Object(resp.fields())
}

/// `r` forwards `request` with `body` to `host`.
pub open spec fn forwards(r: Dispatch, to: String, what: Request, bytes: Seq<u8>) -> bool {
    r matches Dispatch::Forward { host, request, body } && host == to && request == what && body@
        == bytes
}

/// What a request asks of the daemon. Corrupt base64 is answered at once: it must
/// not become an empty body that is silently forwarded as a success.
pub open spec fn dispatched(q: DaemonRequest, r: Dispatch) -> bool {
    let none = Seq::<u8>::empty();
    match q {
        DaemonRequest::Run {
            host,
            command,
            cwd,
            env,
            timeout_ms,
            stdin_b64,
            keep_stdin_open,
            ephemeral,
        } => {
            let request = Request::Run {
                command,
                cwd,
                env,
                timeout_ms,
                keep_stdin_open,
                ephemeral,
            };
            match stdin_b64 {
                None => forwards(r, host, request, none),
                Some(t) => match base64_bytes(t@) {
                    Ok(body) => forwards(r, host, request, body),
                    Err(_) => rejects_base64(r, "invalid base64 in stdin: "@, t@),
                },
            }
        },
        DaemonRequest::Start { host, command, cwd, env } => r == (Dispatch::Start {
            host,
            request: Request::Start { command, cwd, env },
        }),
        DaemonRequest::Wait { host, id, timeout_ms } => forwards(
            r,
            host,
            Request::Wait { id, timeout_ms },
            none,
        ),
        DaemonRequest::Status { host, id } => forwards(r, host, Request::Status { id }, none),
        DaemonRequest::Stdout { host, id, offset, limit } => reads(
            r,
            host,
            id,
            "stdout"@,
            offset,
            limit,
        ),
        DaemonRequest::Stderr { host, id, offset, limit } => reads(
            r,
            host,
            id,
            "stderr"@,
            offset,
            limit,
        ),
        DaemonRequest::Write { host, id, data_b64 } => match base64_bytes(data_b64@) {
            Ok(body) => forwards(r, host, Request::Write { id }, body),
            Err(_) => rejects_base64(r, "invalid base64 in write data: "@, data_b64@),
        },
        DaemonRequest::CloseStdin { host, id } => forwards(
            r,
            host,
            Request::CloseStdin { id },
            none,
        ),
        DaemonRequest::Kill { host, id } => forwards(r, host, Request::Kill { id }, none),
        DaemonRequest::List { host } => forwards(r, host, Request::List, none),
        DaemonRequest::Clean { host } => r == (Dispatch::Clean { host, request: Request::Clean }),
        DaemonRequest::Deploy { host } => r == (Dispatch::Deploy { host }),
        DaemonRequest::DaemonStatus => r is Status,
        DaemonRequest::DaemonStop => r is Stop,
    }
}

/// `r` reads a stream of a process.
pub open spec fn reads(
    r: Dispatch,
    at: String,
    of: String,
    name: Seq<char>,
    from: Option<u64>,
    most: Option<u64>,
) -> bool {
    r matches Dispatch::Read { host, id, stream, offset, limit } && host == at && id == of
        && stream@ == name && offset == from && limit == most
}

fn not_base64(label: &str, e: &str) -> (r: (Dispatch, Ghost<Response>))
    ensures
        is_error(r.1@, ErrorCode::BadRequest, label@ + e@, None),
        r.0 matches Dispatch::Reply(DaemonResponse::Answer { data }) && data.model()
            == JsonModel::Object(r.1@.fields()),
{
    let resp = Response::error_code(ErrorCode::BadRequest, labelled(label, e).as_str());
    (Dispatch::Reply(wrap_response(&resp)), Ghost(resp))
}

/// What a request asks of the daemon.
pub fn dispatch(request: DaemonRequest) -> (r: Dispatch)
    ensures
        dispatched(request, r),
{
    match request {
        DaemonRequest::Run {
            host,
            command,
            cwd,
            env,
            timeout_ms,
            stdin_b64,
            keep_stdin_open,
            ephemeral,
        } => {
            let body: Vec<u8> = match stdin_b64 {
                Some(t) => match base64_decode(t.as_str()) {
                    Ok(b) => b,
                    Err(e) => {
                        let (reply, _) = not_base64("invalid base64 in stdin: ", e.as_str());
                        return reply;
                    },
                },
                None => Vec::new(),
            };
            Dispatch::Forward {
                host,
                request: Request::Run {
                    command,
                    cwd,
                    env,
                    timeout_ms,
                    keep_stdin_open,
                    ephemeral,
                },
                body,
            }
        },
        DaemonRequest::Start { host, command, cwd, env } => Dispatch::Start {
            host,
            request: Request::Start { command, cwd, env },
        },
        DaemonRequest::Wait { host, id, timeout_ms } => Dispatch::Forward {
            host,
            request: Request::Wait { id, timeout_ms },
            body: Vec::new(),
        },
        DaemonRequest::Status { host, id } => Dispatch::Forward {
            host,
            request: Request::Status { id },
            body: Vec::new(),
        },
        DaemonRequest::Stdout { host, id, offset, limit } => Dispatch::Read {
            host,
            id,
            stream: "stdout".to_owned(),
            offset,
            limit,
        },
        DaemonRequest::Stderr { host, id, offset, limit } => Dispatch::Read {
            host,
            id,
            stream: "stderr".to_owned(),
            offset,
            limit,
        },
        DaemonRequest::Write { host, id, data_b64 } => match base64_decode(data_b64.as_str()) {
            Ok(body) => Dispatch::Forward { host, request: Request::Write { id }, body },
            Err(e) => {
                let (reply, _) = not_base64("invalid base64 in write data: ", e.as_str());
                reply
            },
        },
        DaemonRequest::CloseStdin { host, id } => Dispatch::Forward {
            host,
            request: Request::CloseStdin { id },
            body: Vec::new(),
        },
        DaemonRequest::Kill { host, id } => Dispatch::Forward {
            host,
            request: Request::Kill { id },
            body: Vec::new(),
        },
        DaemonRequest::List { host } => Dispatch::Forward {
            host,
            request: Request::List,
            body: Vec::new(),
        },
        DaemonRequest::Clean { host } => Dispatch::Clean { host, request: Request::Clean },
        DaemonRequest::Deploy { host } => Dispatch::Deploy { host },
        DaemonRequest::DaemonStatus => Dispatch::Status,
        DaemonRequest::DaemonStop => Dispatch::Stop,
    }
}

/// A body that is not base64 is answered as the caller's mistake, in words that say what
/// is wrong with it.
pub proof fn lemma_bad_base64_is_told(d: Dispatch, label: Seq<char>, text: Seq<char>)
    requires
        rejects_base64(d, label, text),
    ensures
        d matches Dispatch::Reply(DaemonResponse::Answer { data }) && exists|resp: Response|
            crate::wire::read_response(data.model()) == Some(
                #[trigger] crate::wire::response_model(resp),
            ) && is_error(
                resp,
                ErrorCode::BadRequest,
                label + fault_text(base64_bytes(text)->Err_0),
                None,
            ),
{
    match d {
        Dispatch::Reply(DaemonResponse::Answer { data }) => {
            let resp = choose|resp: Response| #[trigger]
                is_error(
                    resp,
                    ErrorCode::BadRequest,
                    label + fault_text(base64_bytes(text)->Err_0),
                    None,
                ) && data.model() == JsonModel::Object(resp.fields());
            crate::wire::lemma_response_is_read_back(resp);
        },
        _ => {},
    }
}

/// The host that a request to the daemon names.
pub open spec fn named_host(q: DaemonRequest) -> Option<Seq<char>> {
    match q {
        DaemonRequest::Run { host, .. } => Some(host@),
        DaemonRequest::Start { host, .. } => Some(host@),
        DaemonRequest::Wait { host, .. } => Some(host@),
        DaemonRequest::Status { host, .. } => Some(host@),
        DaemonRequest::Stdout { host, .. } => Some(host@),
        DaemonRequest::Stderr { host, .. } => Some(host@),
        DaemonRequest::Write { host, .. } => Some(host@),
        DaemonRequest::CloseStdin { host, .. } => Some(host@),
        DaemonRequest::Kill { host, .. } => Some(host@),
        DaemonRequest::List { host } => Some(host@),
        DaemonRequest::Clean { host } => Some(host@),
        DaemonRequest::Deploy { host } => Some(host@),
        DaemonRequest::DaemonStatus | DaemonRequest::DaemonStop => None,
    }
}

/// The host that the daemon turns to.
pub open spec fn dispatch_host(d: Dispatch) -> Option<Seq<char>> {
    match d {
        Dispatch::Forward { host, .. } => Some(host@),
        Dispatch::Start { host, .. } => Some(host@),
        Dispatch::Read { host, .. } => Some(host@),
        Dispatch::Clean { host, .. } => Some(host@),
        Dispatch::Deploy { host } => Some(host@),
        Dispatch::Reply(_) | Dispatch::Status | Dispatch::Stop => None,
    }
}

/// The daemon turns to the host that a request names and asks it for what the request
/// asks for: a process is killed only by a kill, stdin closed only by a close, and so
/// on; only its own status and its own end it sees to itself.
pub proof fn lemma_daemon_does_what_is_asked(q: DaemonRequest, d: Dispatch)
    requires
        dispatched(q, d),
    ensures
        d !is Reply ==> dispatch_host(d) == named_host(q),
        d is Stop <==> q is DaemonStop,
        d is Status <==> q is DaemonStatus,
        d is Deploy <==> q is Deploy,
        d is Clean <==> q is Clean,
        d is Start <==> q is Start,
        d is Read <==> q is Stdout || q is Stderr,
        d matches Dispatch::Read { stream, .. } ==> (q is Stdout <==> stream@ == "stdout"@),
        d is Reply ==> q is Run || q is Write,
        d matches Dispatch::Forward { request, .. } ==> {
            &&& request is Kill <==> q is Kill
            &&& request is CloseStdin <==> q is CloseStdin
            &&& request is Wait <==> q is Wait
            &&& request is Status <==> q is Status
            &&& request is List <==> q is List
            &&& request is Write <==> q is Write
            &&& request is Run <==> q is Run
        },
        d matches Dispatch::Forward { body, .. } ==> (carried_body(q) matches Some(t)
            ==> base64_bytes(t) == Ok::<Seq<u8>, crate::encoding::Fault>(body@)) && (carried_body(q)
            is None ==> body@.len() == 0),
{
    reveal_strlit("stdout");
    reveal_strlit("stderr");
    assert("stdout"@[3] == 'o' && "stderr"@[3] == 'e');
}

/// The body that a request carries, in base64.
pub open spec fn carried_body(q: DaemonRequest) -> Option<Seq<char>> {
    match q {
        DaemonRequest::Run { stdin_b64, .. } => string_view(stdin_b64),
        DaemonRequest::Write { data_b64, .. } => Some(data_b64@),
        _ => None,
    }
}

/// A corrupt body is never forwarded: with a byte in it that base64 does not hold,
/// wherever it stands, the request is answered at once.
pub proof fn lemma_corrupt_body_is_not_forwarded(q: DaemonRequest, d: Dispatch, i: int)
    requires
        dispatched(q, d),
        carried_body(q) is Some,
        0 <= i < encode_utf8(carried_body(q)->0).len(),
        !is_ascii_white(encode_utf8(carried_body(q)->0)[i]),
        is_foreign(encode_utf8(carried_body(q)->0)[i]),
    ensures
        d is Reply,
{
    lemma_foreign_byte_is_rejected(carried_body(q)->0, i);
}

/// `r` answers with the message of an error.
pub open spec fn reports(r: DaemonResponse, text: Seq<char>) -> bool {
    r matches DaemonResponse::Error { message } && message@ == text
}

/// `r` answers a request that was forwarded.
pub open spec fn is_forwarded(r: DaemonResponse, result: Result<Response, RemExecError>) -> bool {
    match result {
        Ok(resp) => wraps(r, resp),
        Err(e) => reports(r, e.text()),
    }
}

/// What the host answers comes through the daemon with nothing lost: read back out of
/// the daemon's answer it is the host's response. A failure comes through in its own
/// words.
pub proof fn lemma_host_answer_comes_through(
    r: DaemonResponse,
    result: Result<Response, RemExecError>,
)
    requires
        is_forwarded(r, result),
    ensures
        result matches Ok(resp) ==> (r matches DaemonResponse::Answer { data }
            && crate::wire::read_response(data.model()) == Some(crate::wire::response_model(resp))),
        result matches Err(e) ==> (r matches DaemonResponse::Error { message } && message@
            == e.text()),
{
    if let Ok(resp) = result {
        crate::wire::lemma_response_is_read_back(resp);
    }
}

/// The answer to a request that was forwarded.
pub fn forward(result: &Result<Response, RemExecError>) -> (r: DaemonResponse)
    ensures
        is_forwarded(r, *result),
{
    match result {
        Ok(resp) => wrap_response(resp),
        Err(e) => DaemonResponse::Error { message: e.message() },
    }
}

/// What a start does to what is tracked, and where its output is streamed to.
pub open spec fn is_tracked(
    m0: Map<Seq<char>, Map<Seq<char>, Seq<char>>>,
    m1: Map<Seq<char>, Map<Seq<char>, Seq<char>>>,
    base: Seq<char>,
    host: Seq<char>,
    result: Result<Response, RemExecError>,
    dir: Option<Seq<char>>,
) -> bool {
    match result {
        Ok(Response::Started { id }) => {
            let at = process_cache(base, host, id@);
            let known = crate::daemon::state::processes_of(m0, host);
            &&& dir == Some(at)
            &&& m1 == m0.insert(host, known.insert(id@, at))
        },
        _ => dir is None && m1 == m0,
    }
}

/// A process that was started is tracked under its host and its ID, at the place where
/// its output is streamed to; every other process and every other host stays as it
/// was, and nothing changes where none was started.
pub proof fn lemma_started_process_is_tracked(
    m0: Map<Seq<char>, Map<Seq<char>, Seq<char>>>,
    m1: Map<Seq<char>, Map<Seq<char>, Seq<char>>>,
    base: Seq<char>,
    host: Seq<char>,
    result: Result<Response, RemExecError>,
    dir: Option<Seq<char>>,
)
    requires
        is_tracked(m0, m1, base, host, result, dir),
    ensures
        (result matches Ok(r) && r is Started) <==> dir is Some,
        dir is None ==> m1 == m0,
        result matches Ok(Response::Started { id }) ==> {
            &&& m1.contains_key(host) && m1[host].contains_key(id@)
            &&& dir == Some(m1[host][id@])
            &&& forall|other: Seq<char>|
                other != id@ ==> m1[host].contains_key(other) == (m0.contains_key(host)
                    && m0[host].contains_key(other)) && (m0.contains_key(host) ==> #[trigger]
                m1[host][other] == m0[host][other])
        },
        forall|h: Seq<char>|
            h != host ==> m1.contains_key(h) == m0.contains_key(h) && #[trigger] m1[h] == m0[h],
{
}

/// The answer to a start that was forwarded. A process that was started is
/// tracked, and the result names the directory its output is streamed to.
pub fn handle_start(
    state: &mut DaemonState,
    host: &str,
    result: &Result<Response, RemExecError>,
) -> (r: (DaemonResponse, Option<String>))
    requires
        old(state).wf(),
    ensures
        final(state).wf(),
        final(state).local_base == old(state).local_base,
        is_forwarded(r.0, *result),
        is_tracked(
            old(state)@,
            final(state)@,
            old(state).local_base@,
            host@,
            *result,
            string_view(r.1),
        ),
{
    let reply = forward(result);
    match result {
        Ok(Response::Started { id }) => {
            let dir = state.local_dir(host, id.as_str());
            let known = state.host_mut(host);
            known.insert(id.as_str(), dir.as_str());
            (reply, Some(dir))
        },
        _ => (reply, None),
    }
}

/// What was found of a stream in the local cache.
#[derive(Debug)]
pub enum CacheRead {
    /// It is not cached.
    Absent,
    /// It could not be opened.
    Failed(String),
    /// These bytes, of a file of this size.
    Data { bytes: Vec<u8>, size: u64 },
}

/// `q` asks the host for a stream of a process.
pub open spec fn asks_to_read(
    q: Request,
    of: Seq<char>,
    name: Seq<char>,
    from: Option<u64>,
    most: Option<u64>,
) -> bool {
    q matches Request::Read { id, stream, offset, limit } && id@ == of && stream@ == name && offset
        == from && limit == most
}

/// `r` answers a read from the cache, or is the request to forward.
pub open spec fn is_cached_read(
    r: Result<DaemonResponse, Request>,
    id: Seq<char>,
    stream: Seq<char>,
    offset: Option<u64>,
    limit: Option<u64>,
    cached: CacheRead,
) -> bool {
    match cached {
        CacheRead::Absent => r matches Err(q) && asks_to_read(q, id, stream, offset, limit),
        CacheRead::Failed(e) => r matches Ok(resp) && reports(
            resp,
            "failed to read local cache: "@ + e@,
        ),
        CacheRead::Data { bytes, size } => r matches Ok(DaemonResponse::Answer { data })
            && exists|resp: Response| #[trigger]
            is_output(resp, bytes@, len_or_zero(offset), size) && data.model() == JsonModel::Object(
                resp.fields(),
            ),
    }
}

/// What is cached is answered as the host would answer it: the bytes, where they stand
/// and how long the stream is, read back out of the answer. What is not cached is
/// asked of the host, for the same process, stream and window.
pub proof fn lemma_cached_read_is_the_output(
    r: Result<DaemonResponse, Request>,
    id: Seq<char>,
    stream: Seq<char>,
    offset: Option<u64>,
    limit: Option<u64>,
    cached: CacheRead,
)
    requires
        is_cached_read(r, id, stream, offset, limit, cached),
    ensures
        r is Err <==> cached is Absent,
        r matches Err(q) ==> (q matches Request::Read { id: i, stream: s, offset: o, limit: l } && i@
            == id && s@ == stream && o == offset && l == limit),
        cached matches CacheRead::Data { bytes, size } ==> (r matches Ok(
            DaemonResponse::Answer { data },
        ) && exists|resp: Response| #[trigger]
            is_output(resp, bytes@, len_or_zero(offset), size) && crate::wire::read_response(
                data.model(),
            ) == Some(crate::wire::response_model(resp))),
        cached is Failed ==> (r matches Ok(a) && a is Error),
{
    if let CacheRead::Data { bytes, size } = cached {
        match r {
            Ok(DaemonResponse::Answer { data }) => {
                let resp = choose|resp: Response| #[trigger]
                    is_output(resp, bytes@, len_or_zero(offset), size) && data.model()
                        == JsonModel::Object(resp.fields());
                crate::wire::lemma_response_is_read_back(resp);
            },
            _ => {},
        }
    }
}

/// Read from the local cache if the stream is there; otherwise give the request
/// to forward to the host.
pub fn handle_read(
    id: &str,
    stream: &str,
    offset: Option<u64>,
    limit: Option<u64>,
    cached: &CacheRead,
) -> (r: Result<DaemonResponse, Request>)
    ensures
        is_cached_read(r, id@, stream@, offset, limit, *cached),
{
    match cached {
        CacheRead::Absent => Err(
            Request::Read { id: id.to_owned(), stream: stream.to_owned(), offset, limit },
        ),
        CacheRead::Failed(e) => Ok(
            DaemonResponse::Error { message: labelled("failed to read local cache: ", e.as_str()) },
        ),
        CacheRead::Data { bytes, size } => {
            let at: u64 = match offset {
                Some(n) => n,
                None => 0,
            };
            let resp = output_response(bytes, at, *size);
            assert(is_output(resp, bytes@, len_or_zero(offset), *size));
            let reply = wrap_response(&resp);
            assert(reply is Answer);
            assert(reply->Answer_data.model() == JsonModel::Object(resp.fields()));
            Ok(reply)
        },
    }
}

/// What is tracked once a host was cleaned.
pub open spec fn forgotten(
    m: Map<Seq<char>, Map<Seq<char>, Seq<char>>>,
    host: Seq<char>,
) -> Map<Seq<char>, Map<Seq<char>, Seq<char>>> {
    if m.contains_key(host) {
        m.insert(host, Map::empty())
    } else {
        m
    }
}

/// Cleaning a host drops every process of it and none of another, and no host comes or
/// goes.
pub proof fn lemma_clean_forgets_the_host(
    m: Map<Seq<char>, Map<Seq<char>, Seq<char>>>,
    host: Seq<char>,
    other: Seq<char>,
    id: Seq<char>,
)
    ensures
        !crate::daemon::state::processes_of(forgotten(m, host), host).contains_key(id),
        other != host ==> crate::daemon::state::processes_of(forgotten(m, host), other)
            == crate::daemon::state::processes_of(m, other),
        forgotten(m, host).contains_key(other) == m.contains_key(other),
{
}

/// Drop what is tracked of a host, and name the cache directory to remove.
pub fn clean_host(state: &mut DaemonState, host: &str) -> (r: String)
    requires
        old(state).wf(),
    ensures
        final(state).wf(),
        final(state).local_base == old(state).local_base,
        final(state)@ == forgotten(old(state)@, host@),
        r@ == crate::daemon::state::host_cache(old(state).local_base@, host@),
{
    state.forget(host);
    state.host_dir(host)
}

/// The fields of the answer to a deployment.
pub open spec fn deployed_fields(d: DeployResult) -> Seq<(Seq<char>, JsonModel)> {
    seq![
        ("type"@, JsonModel::Text("deployed"@)),
        ("host"@, JsonModel::Text(d.host@)),
        ("arch"@, JsonModel::Text(d.arch@)),
        ("version"@, JsonModel::Text(d.version@)),
    ]
}

/// The fields of the answer to a status request.
pub open spec fn status_fields(hosts: usize, processes: usize) -> Seq<(Seq<char>, JsonModel)> {
    seq![
        ("type"@, JsonModel::Text("daemon_status"@)),
        ("hosts"@, JsonModel::Int(hosts as int)),
        ("processes"@, JsonModel::Int(processes as int)),
    ]
}

/// The answers to a deployment and to a status request read back.
pub proof fn lemma_daemon_answers_read_back(d: DeployResult, hosts: usize, processes: usize)
    ensures
        lookup_text(JsonModel::Object(deployed_fields(d)), "host"@) == Some(d.host@),
        lookup_text(JsonModel::Object(deployed_fields(d)), "arch"@) == Some(d.arch@),
        lookup_text(JsonModel::Object(deployed_fields(d)), "version"@) == Some(d.version@),
        lookup(JsonModel::Object(status_fields(hosts, processes)), "hosts"@) == Some(
            JsonModel::Int(hosts as int),
        ),
        lookup(JsonModel::Object(status_fields(hosts, processes)), "processes"@) == Some(
            JsonModel::Int(processes as int),
        ),
{
    lemma_control_names();
    let f = deployed_fields(d);
    let g = status_fields(hosts, processes);
    reveal_with_fuel(member_from, 5);
    lemma_member_from(f, "host"@);
    lemma_member_from(f, "arch"@);
    lemma_member_from(f, "version"@);
    lemma_member_from(g, "hosts"@);
    lemma_member_from(g, "processes"@);
}

/// The answer to a deployment.
pub fn deployed(result: &Result<DeployResult, RemExecError>) -> (r: DaemonResponse)
    ensures
        match *result {
            Ok(d) => r matches DaemonResponse::Answer { data } && data.model() == JsonModel::Object(
                deployed_fields(d),
            ),
            Err(e) => reports(r, e.text()),
        },
{
    match result {
        Ok(d) => {
            let mut fields = typed("deployed");
            push_field(&mut fields, "host", Json::text(d.host.as_str()));
            push_field(&mut fields, "arch", Json::text(d.arch.as_str()));
            push_field(&mut fields, "version", Json::text(d.version.as_str()));
            assert(fields_model(fields@) =~= seq![
                ("type"@, JsonModel::Text("deployed"@)),
                ("host"@, JsonModel::Text(d.host@)),
                ("arch"@, JsonModel::Text(d.arch@)),
                ("version"@, JsonModel::Text(d.version@)),
            ]);
            DaemonResponse::Answer { data: Json::object(fields) }
        },
        Err(e) => DaemonResponse::Error { message: e.message() },
    }
}

/// The answer to a status request.
pub fn status_response(hosts: usize, processes: usize) -> (r: DaemonResponse)
    ensures
        r matches DaemonResponse::Answer { data } && data.model() == JsonModel::Object(
            status_fields(hosts, processes),
        ),
{
    let mut fields = typed("daemon_status");
    push_field(&mut fields, "hosts", Json::Unsigned(hosts as u64));
    push_field(&mut fields, "processes", Json::Unsigned(processes as u64));
    assert(fields_model(fields@) =~= seq![
        ("type"@, JsonModel::Text("daemon_status"@)),
        ("hosts"@, JsonModel::Int(hosts as int)),
        ("processes"@, JsonModel::Int(processes as int)),
    ]);
    DaemonResponse::Answer { data: Json::object(fields) }
}

/// The answer to a stop request.
pub fn stopped() -> (r: DaemonResponse)
    ensures
        r matches DaemonResponse::Answer { data } && data.model() == JsonModel::Object(
            seq![("type"@, JsonModel::Text("stopped"@))],
        ),
{
    DaemonResponse::Answer { data: Json::object(typed("stopped")) }
}

} // verus!
