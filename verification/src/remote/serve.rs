//! One framed request from stdin, one JSON response to stdout.
//!
//! The request is a single JSON line; any bytes after the newline are the
//! request body. Because the entire request travels through the SSH channel's
//! stdin, the remote login shell never parses a single field.

use vstd::prelude::*;
use vstd::utf8::{encode_scalar, encode_utf8};

use crate::deploy::VERSION;
use crate::error::{labelled, IoError, IoKind, RemExecError};
use crate::protocol::{
    code_of_io, io_error_code, is_error, octal_mode, octal_text, ErrorCode, Request, Response,
    PROTOCOL_VERSION,
};
use crate::remote::hostinfo::HostIdentity;

verus! {

// ---------------------------------------------------------------------------
// The request line
// ---------------------------------------------------------------------------

/// The length of the request line: up to the first newline.
pub open spec fn line_len(input: Seq<u8>) -> int
    decreases input.len(),
{
    if input.len() == 0 || input[0] == 0x0a {
        0
    } else {
        1 + line_len(input.skip(1))
    }
}

/// The request line of `input`, without its newline.
pub open spec fn request_line(input: Seq<u8>) -> Seq<u8> {
    input.take(line_len(input))
}

/// What follows the newline.
pub open spec fn request_body(input: Seq<u8>) -> Seq<u8> {
    if line_len(input) < input.len() {
        input.skip(line_len(input) + 1)
    } else {
        Seq::empty()
    }
}

proof fn lemma_line_len(input: Seq<u8>)
    ensures
        0 <= line_len(input) <= input.len(),
        line_len(input) < input.len() ==> input[line_len(input)] == 0x0a,
    decreases input.len(),
{
    if input.len() > 0 && input[0] != 0x0a {
        lemma_line_len(input.skip(1));
    }
}

/// Cut the input into the request line (stripping the newline) and the body.
pub fn read_request_line(input: &[u8]) -> (r: (Vec<u8>, Vec<u8>))
    ensures
        r.0@ == request_line(input@),
        r.1@ == request_body(input@),
{
    let n: usize = input.len();
    let mut i: usize = 0;
    assert(input@.skip(0) =~= input@);
    while i < n && input[i] != 0x0a
        invariant
            i <= n == input@.len(),
            line_len(input@) == i + line_len(input@.skip(i as int)),
        decreases n - i,
    {
        assert(input@.skip(i as int).skip(1) =~= input@.skip(i + 1));
        i += 1;
    }
    let line = vstd::slice::slice_to_vec(vstd::slice::slice_subrange(input, 0, i));
    assert(line@ =~= request_line(input@));
    if i < n {
        let body = vstd::slice::slice_to_vec(vstd::slice::slice_subrange(input, i + 1, n));
        assert(body@ =~= request_body(input@));
        (line, body)
    } else {
        let body: Vec<u8> = Vec::new();
        assert(body@ =~= request_body(input@));
        (line, body)
    }
}

proof fn lemma_line_of(line: Seq<u8>, rest: Seq<u8>)
    requires
        !line.contains(0x0au8),
    ensures
        line_len(line + seq![0x0au8] + rest) == line.len(),
    decreases line.len(),
{
    let input = line + seq![0x0au8] + rest;
    if line.len() == 0 {
        assert(input[0] == 0x0a);
    } else {
        let shorter = line.skip(1);
        assert(!shorter.contains(0x0au8)) by {
            if shorter.contains(0x0au8) {
                let i = choose|i: int| 0 <= i < shorter.len() && shorter[i] == 0x0au8;
                assert(line[i + 1] == 0x0au8);
            }
        }
        lemma_line_of(shorter, rest);
        assert(input.skip(1) =~= shorter + seq![0x0au8] + rest);
        assert(line[0] != 0x0au8) by {
            if line[0] == 0x0au8 {
                assert(line.contains(0x0au8));
            }
        }
        assert(input[0] == line[0]);
    }
}

proof fn lemma_newline_byte(ch: char)
    requires
        ch != '\n',
    ensures
        !encode_scalar(ch as u32).contains(0x0au8),
{
    let c = ch as u32;
    let e = encode_scalar(c);
    assert(c != 0x0a);
    assert(c <= 0x7f && c != 0x0a ==> ((c & 0x7f) as u8) != 0x0a) by (bit_vector);
    assert forall|b: u8| #[trigger] (0x80 | b) >= 0x80 by {
        assert((0x80 | b) >= 0x80) by (bit_vector);
    }
    assert forall|b: u8| #[trigger] (0xc0 | b) >= 0x80 by {
        assert((0xc0 | b) >= 0x80) by (bit_vector);
    }
    assert forall|b: u8| #[trigger] (0xe0 | b) >= 0x80 by {
        assert((0xe0 | b) >= 0x80) by (bit_vector);
    }
    assert forall|b: u8| #[trigger] (0xf0 | b) >= 0x80 by {
        assert((0xf0 | b) >= 0x80) by (bit_vector);
    }
    assert forall|i: int| 0 <= i < e.len() implies e[i] != 0x0a by {}
}

/// Only a newline is written with the byte of a newline.
proof fn lemma_no_newline(line: Seq<char>)
    requires
        !line.contains('\n'),
    ensures
        !encode_utf8(line).contains(0x0au8),
    decreases line.len(),
{
    if line.len() > 0 {
        let rest = line.drop_first();
        let head = encode_scalar(line[0] as u32);
        assert(line.contains(line[0]));
        assert forall|i: int| 0 <= i < rest.len() implies rest[i] != '\n' by {
            assert(line.contains(line[i + 1]));
        }
        lemma_newline_byte(line[0]);
        lemma_no_newline(rest);
        let all = encode_utf8(line);
        assert forall|i: int| 0 <= i < all.len() implies all[i] != 0x0a by {
            if i < head.len() {
                assert(all[i] == head[i]);
                assert(head.contains(head[i]));
            } else {
                assert(all[i] == encode_utf8(rest)[i - head.len()]);
                assert(encode_utf8(rest).contains(encode_utf8(rest)[i - head.len()]));
            }
        }
    }
}

/// A request arrives as it was sent: the line that was written, and the body
/// byte for byte.
pub proof fn lemma_request_arrives(line: Seq<char>, body: Seq<u8>)
    requires
        !line.contains('\n'),
    ensures
        request_line(crate::ssh::request_bytes(line, body)) == encode_utf8(line),
        request_body(crate::ssh::request_bytes(line, body)) == body,
{
    lemma_no_newline(line);
    let l = encode_utf8(line);
    let input = crate::ssh::request_bytes(line, body);
    lemma_line_of(l, body);
    assert(input.take(l.len() as int) =~= l);
    assert(input.skip(l.len() as int + 1) =~= body);
}

// ---------------------------------------------------------------------------
// Routing
// ---------------------------------------------------------------------------

/// `r` refuses a request line that cannot be one.
pub open spec fn is_line_refusal(
    r: Option<Response>,
    read: Result<(), IoError>,
    line: Seq<u8>,
) -> bool {
    match read {
        Err(e) => r matches Some(resp) && is_error(
            resp,
            ErrorCode::BadRequest,
            "failed to read request: "@ + e.message@,
            None,
        ),
        Ok(()) => if line.len() == 0 {
            r matches Some(resp) && is_error(resp, ErrorCode::BadRequest, "empty request"@, None)
        } else {
            r is None
        },
    }
}

/// A request line is taken exactly where it was read and holds something; the caller
/// is at fault for any other.
pub proof fn lemma_line_is_taken(r: Option<Response>, read: Result<(), IoError>, line: Seq<u8>)
    requires
        is_line_refusal(r, read, line),
    ensures
        r is None <==> read is Ok && line != Seq::<u8>::empty(),
        r matches Some(resp) ==> (resp matches Response::Error { code, .. } && code == Some(
            ErrorCode::BadRequest,
        )),
{
    if line.len() == 0 {
        assert(line =~= Seq::<u8>::empty());
    }
}

/// Refuse a request line that cannot be one.
pub fn check_line(read: &Result<(), IoError>, line: &[u8]) -> (r: Option<Response>)
    ensures
        is_line_refusal(r, *read, line@),
{
    match read {
        Err(e) => Some(
            Response::error_code(
                ErrorCode::BadRequest,
                labelled("failed to read request: ", e.message.as_str()).as_str(),
            ),
        ),
        Ok(()) => if line.len() == 0 {
            Some(Response::error_code(ErrorCode::BadRequest, "empty request"))
        } else {
            None
        },
    }
}

/// Where a request goes, and what becomes of its body.
#[derive(Debug)]
pub enum Route {
    /// Answer this at once; nothing is touched.
    Reply(Response),
    /// Answer with the host identity; nothing is touched.
    Ping,
    /// Stream the file at this path; no state directory is needed.
    Get { path: String },
    /// Act on managed state, after the base directory has been checked.
    Managed { request: Request, body: BodyUse },
}

/// What becomes of the body of a request.
#[derive(Debug, Clone, Copy, PartialEq, Eq, Structural)]
pub enum BodyUse {
    /// It is read whole before the action.
    Whole,
    /// It is read and dropped, so the writer never sees a broken pipe.
    Drained,
    /// The action streams it.
    Streamed,
    /// It is not looked at.
    Ignored,
}

/// What becomes of the body of a request.
pub open spec fn body_use(request: Request) -> BodyUse {
    match request {
        Request::Run { .. } | Request::Write { .. } => BodyUse::Whole,
        Request::Start { .. } => BodyUse::Drained,
        Request::Put { .. } | Request::PutStream { .. } => BodyUse::Streamed,
        _ => BodyUse::Ignored,
    }
}

/// `r` is where a decoded request goes.
pub open spec fn is_route(r: Route, decoded: Result<Request, String>) -> bool {
    match decoded {
        Err(e) => r matches Route::Reply(resp) && is_error(
            resp,
            ErrorCode::BadRequest,
            "invalid request JSON: "@ + e@,
            None,
        ),
        Ok(request) => match request {
            Request::Version => r matches Route::Reply(Response::Version { version, protocol })
                && version@ == VERSION@ && protocol == PROTOCOL_VERSION,
            Request::Ping => r is Ping,
            Request::Get { path } => r == (Route::Get { path }),
            _ => r == (Route::Managed { request, body: body_use(request) }),
        },
    }
}

/// No request is lost or altered on its way: what is asked of managed state is
/// acted on as it was asked, a get is for the path that was named, and what can be
/// answered on a fresh host never waits for a state directory.
pub proof fn lemma_request_goes_where_it_belongs(r: Route, decoded: Result<Request, String>)
    requires
        is_route(r, decoded),
    ensures
        r matches Route::Managed { request, .. } ==> decoded == Ok::<Request, String>(request)
            && request !is Version && request !is Ping && request !is Get,
        r matches Route::Get { path } ==> decoded == Ok::<Request, String>(Request::Get { path }),
        r is Ping <==> decoded == Ok::<Request, String>(Request::Ping),
        r matches Route::Reply(resp) ==> {
            &&& decoded is Err || decoded == Ok::<Request, String>(Request::Version)
            &&& decoded is Err <==> resp is Error
            &&& resp matches Response::Version { version, protocol } ==> version@ == VERSION@
                && protocol == PROTOCOL_VERSION
        },
{
}

/// The body of a request reaches whoever needs it: the input of a command is there
/// before the command is acted on, the bytes of a file are left to the one who
/// writes the file, and what a start is sent is taken off the channel. No other
/// request has one.
pub proof fn lemma_body_reaches_its_reader(request: Request)
    ensures
        request is Run || request is Write <==> body_use(request) is Whole,
        request is Put || request is PutStream <==> body_use(request) is Streamed,
        request is Start <==> body_use(request) is Drained,
{
}

/// Route a decoded request. Version and ping must answer on a fresh host,
/// before any state directory exists, and a get needs none.
pub fn serve(decoded: Result<Request, String>) -> (r: Route)
    ensures
        is_route(r, decoded),
{
    match decoded {
        Err(e) => Route::Reply(
            Response::error_code(
                ErrorCode::BadRequest,
                labelled("invalid request JSON: ", e.as_str()).as_str(),
            ),
        ),
        Ok(Request::Version) => Route::Reply(version_response()),
        Ok(Request::Ping) => Route::Ping,
        Ok(Request::Get { path }) => Route::Get { path },
        Ok(request) => {
            let body: BodyUse = match &request {
                Request::Run { .. } | Request::Write { .. } => BodyUse::Whole,
                Request::Start { .. } => BodyUse::Drained,
                Request::Put { .. } | Request::PutStream { .. } => BodyUse::Streamed,
                _ => BodyUse::Ignored,
            };
            Route::Managed { request, body }
        },
    }
}

/// The version handshake.
pub fn version_response() -> (r: Response)
    ensures
        r matches Response::Version { version, protocol } && version@ == VERSION@ && protocol
            == PROTOCOL_VERSION,
{
    Response::Version { version: VERSION.to_owned(), protocol: PROTOCOL_VERSION }
}

/// `r` answers a ping.
pub open spec fn is_ping(r: Response, id: HostIdentity) -> bool {
    r matches Response::Ping {
        version,
        protocol,
        arch,
        os,
        kernel,
        hostname,
        distro_id,
        distro_version,
    } && version@ == VERSION@ && protocol == PROTOCOL_VERSION && arch == id.arch && os == id.os
        && kernel == id.kernel && hostname == id.hostname && distro_id == id.distro_id
        && distro_version == id.distro_version
}

/// A ping tells who the host is, each part under its own name, and which rxd answers.
pub proof fn lemma_ping_tells_the_host(r: Response, id: HostIdentity)
    requires
        is_ping(r, id),
    ensures
        r matches Response::Ping { version, protocol, .. } && version@ == VERSION@ && protocol
            == PROTOCOL_VERSION,
        r matches Response::Ping { arch, os, .. } && arch@ == id.arch@ && os@ == id.os@,
        r matches Response::Ping { kernel, hostname, .. } && kernel@ == id.kernel@ && hostname@
            == id.hostname@,
        r matches Response::Ping { distro_id, distro_version, .. } && distro_id == id.distro_id
            && distro_version == id.distro_version,
{
}

/// The answer to a ping.
pub fn ping_response(id: HostIdentity) -> (r: Response)
    ensures
        is_ping(r, id),
{
    Response::Ping {
        version: VERSION.to_owned(),
        protocol: PROTOCOL_VERSION,
        arch: id.arch,
        os: id.os,
        kernel: id.kernel,
        hostname: id.hostname,
        distro_id: id.distro_id,
        distro_version: id.distro_version,
    }
}

/// The answer when the base directory cannot be used.
pub fn base_dir_response(e: &RemExecError) -> (r: Response)
    ensures
        is_error(r, ErrorCode::Internal, e.text(), None),
{
    Response::error_code(ErrorCode::Internal, e.message().as_str())
}

/// `r` is the response to a start request.
pub open spec fn is_start_response(r: Response, result: Result<Response, RemExecError>) -> bool {
    match result {
        Ok(resp) => r == resp,
        Err(e) => is_error(r, ErrorCode::Internal, e.text(), None),
    }
}

/// What a start came to is the response, unaltered; a failure is an internal error that
/// says so in its own words.
pub proof fn lemma_start_response(r: Response, result: Result<Response, RemExecError>)
    requires
        is_start_response(r, result),
    ensures
        result matches Ok(resp) ==> r == resp,
        result matches Err(e) ==> (r matches Response::Error { code, message, .. } && code == Some(
            ErrorCode::Internal,
        ) && message@ == e.text()),
{
}

/// The answer to a start request.
pub fn start_response(result: Result<Response, RemExecError>) -> (r: Response)
    ensures
        is_start_response(r, result),
{
    match result {
        Ok(resp) => resp,
        Err(e) => Response::error_code(ErrorCode::Internal, e.message().as_str()),
    }
}

// ---------------------------------------------------------------------------
// Downloads
// ---------------------------------------------------------------------------

/// What is said of a file that could not be opened.
pub open spec fn open_error_text(path: Seq<char>, e: IoError) -> Seq<char> {
    match e.kind {
        IoKind::NotFound => "no such file: "@ + path,
        IoKind::PermissionDenied => "cannot read "@ + path + ": permission denied"@,
        _ => "open "@ + path + ": "@ + e.message@,
    }
}

/// What is said of a file that could not be opened names the file, and the system's own
/// words where the condition has none of ours.
pub proof fn lemma_open_error_names_the_file(path: Seq<char>, e: IoError)
    ensures
        crate::text::contains_text(open_error_text(path, e), path),
        e.kind !is NotFound && e.kind !is PermissionDenied ==> crate::text::contains_text(
            open_error_text(path, e),
            e.message@,
        ),
{
    let none = Seq::<char>::empty();
    let t = open_error_text(path, e);
    match e.kind {
        IoKind::NotFound => {
            assert(t =~= "no such file: "@ + path + none);
            crate::text::lemma_part_occurs("no such file: "@, path, none);
        },
        IoKind::PermissionDenied => {
            crate::text::lemma_part_occurs("cannot read "@, path, ": permission denied"@);
        },
        _ => {
            assert(t =~= "open "@ + path + (": "@ + e.message@));
            crate::text::lemma_part_occurs("open "@, path, ": "@ + e.message@);
            assert(t =~= ("open "@ + path + ": "@) + e.message@ + none);
            crate::text::lemma_part_occurs("open "@ + path + ": "@, e.message@, none);
        },
    }
}

/// Map a file-open error to a typed response. The code is the one every path
/// gives for that condition; only the message is phrased for reading.
pub fn get_open_error(path: &str, e: &IoError) -> (r: Response)
    ensures
        is_error(r, code_of_io(e.kind), open_error_text(path@, *e), None),
{
    let message: String = match e.kind {
        IoKind::NotFound => labelled("no such file: ", path),
        IoKind::PermissionDenied => {
            let mut m = labelled("cannot read ", path);
            m.append(": permission denied");
            m
        },
        _ => {
            let mut m = labelled("open ", path);
            m.append(": ");
            m.append(e.message.as_str());
            m
        },
    };
    Response::error_code(io_error_code(e), message.as_str())
}

/// What `fstat` says of a file.
#[derive(Debug, Clone, Copy)]
pub struct FileMeta {
    pub is_file: bool,
    pub len: u64,
    pub mode: u32,
}

/// `r` is the header of a download, or the error that is sent instead.
pub open spec fn is_get_header(
    r: Result<Response, Response>,
    path: Seq<char>,
    meta: Result<FileMeta, IoError>,
) -> bool {
    match meta {
        Ok(m) => if m.is_file {
            r matches Ok(Response::GetStream { size, mode }) && size == m.len && mode@
                == octal_text(m.mode as int)
        } else {
            r matches Err(resp) && is_error(
                resp,
                ErrorCode::BadRequest,
                "not a regular file: "@ + path,
                None,
            )
        },
        Err(e) => r matches Err(resp) && is_error(
            resp,
            ErrorCode::Internal,
            "stat "@ + path + ": "@ + e.message@,
            None,
        ),
    }
}

/// A download announces the length that the file has, and its mode reads back with
/// the permission bits that the file has; only a regular file is announced.
pub proof fn lemma_get_announces_the_file(
    r: Result<Response, Response>,
    path: Seq<char>,
    meta: Result<FileMeta, IoError>,
)
    requires
        is_get_header(r, path, meta),
    ensures
        r is Ok <==> (meta matches Ok(m) && m.is_file),
        r matches Ok(resp) ==> (resp matches Response::GetStream { size, mode } && (meta matches Ok(
            m,
        ) && size == m.len && crate::protocol::mode_of(mode@) == Some(m.mode as int % 4096))),
        r matches Err(resp) ==> (resp matches Response::Error { code, .. } && (code == Some(
            ErrorCode::BadRequest,
        ) <==> meta is Ok) && (code == Some(ErrorCode::Internal) <==> meta is Err)),
{
    if let Ok(m) = meta {
        crate::protocol::lemma_octal_roundtrip(m.mode);
    }
}

/// The header of a download: its size and mode, or the one error line that is
/// sent instead. Only a regular file is sent.
pub fn serve_get(path: &str, meta: Result<FileMeta, IoError>) -> (r: Result<Response, Response>)
    ensures
        is_get_header(r, path@, meta),
{
    match meta {
        Ok(m) => {
            if m.is_file {
                Ok(Response::GetStream { size: m.len, mode: octal_mode(m.mode) })
            } else {
                Err(
                    Response::error_code(
                        ErrorCode::BadRequest,
                        labelled("not a regular file: ", path).as_str(),
                    ),
                )
            }
        },
        Err(e) => {
            let mut m = labelled("stat ", path);
            m.append(": ");
            m.append(e.message.as_str());
            Err(Response::error_code(ErrorCode::Internal, m.as_str()))
        },
    }
}

/// A download was delivered coherently.
pub open spec fn delivered(
    declared: u64,
    sent: Option<u64>,
    flushed: bool,
    after: Option<u64>,
) -> bool {
    sent == Some(declared) && flushed && after == Some(declared)
}

/// A download counts as delivered only where what went out is as long as was
/// announced and the file did not change its length meanwhile; and it does count
/// where all of that holds.
pub proof fn lemma_delivered_is_coherent(
    declared: u64,
    sent: Option<u64>,
    flushed: bool,
    after: Option<u64>,
)
    ensures
        delivered(declared, sent, flushed, after) ==> {
            &&& sent matches Some(n) && n == declared
            &&& after matches Some(n) && n == declared
            &&& flushed
        },
        delivered(declared, Some(declared), true, Some(declared)),
{
}

/// Whether a download was delivered coherently: exactly the declared bytes went
/// out, and the file still has that length. Anything else exits non-zero, the
/// only channel left once the header has gone out.
pub fn get_succeeded(declared: u64, sent: Option<u64>, flushed: bool, after: Option<u64>) -> (r:
    bool)
    ensures
        r == delivered(declared, sent, flushed, after),
{
    match (sent, after) {
        (Some(s), Some(a)) => s == declared && flushed && a == declared,
        _ => false,
    }
}

} // verus!
