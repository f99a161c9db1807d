//! Requests and responses read back out of their JSON form: what travels says all
//! there is to say, and nothing else is said by it.

use vstd::prelude::*;

use crate::encoding::Encoding;
use crate::json::{lemma_member_from, lookup, lookup_text, member_from, JsonModel};
use crate::protocol::{
    answered_code, lengthened, opt_u64, widened, DaemonRequest, ErrorCode, ProcessSummary, Request,
    Response,
};
use crate::text::{string_view, views};

verus! {

// ---------------------------------------------------------------------------
// Reading fields
// ---------------------------------------------------------------------------

/// The text of a field that has to be there.
pub open spec fn text_in(v: JsonModel, key: Seq<char>) -> Seq<char> {
    match lookup(v, key) {
        Some(JsonModel::Text(s)) => s,
        _ => Seq::empty(),
    }
}

/// The number of a field; none where it is null or not there.
pub open spec fn number_in(v: JsonModel, key: Seq<char>) -> Option<int> {
    match lookup(v, key) {
        Some(JsonModel::Int(n)) => Some(n),
        _ => None,
    }
}

/// Whether a flag is there and set.
pub open spec fn flag_in(v: JsonModel, key: Seq<char>) -> bool {
    lookup(v, key) == Some(JsonModel::Bool(true))
}

/// The texts of a list.
pub open spec fn texts_in(v: JsonModel, key: Seq<char>) -> Seq<Seq<char>> {
    match lookup(v, key) {
        Some(JsonModel::List(items)) => Seq::new(items.len(), |i: int| items[i]->Text_0),
        _ => Seq::empty(),
    }
}

/// The names and texts of an object; none where it is not there.
pub open spec fn pairs_in(v: JsonModel, key: Seq<char>) -> Seq<(Seq<char>, Seq<char>)> {
    match lookup(v, key) {
        Some(JsonModel::Object(f)) => Seq::new(f.len(), |i: int| (f[i].0, f[i].1->Text_0)),
        _ => Seq::empty(),
    }
}

/// How the bytes of a field are carried.
pub open spec fn encoding_in(v: JsonModel, key: Seq<char>) -> Encoding {
    if text_in(v, key) == "utf8"@ {
        Encoding::Utf8
    } else {
        Encoding::Base64
    }
}

/// The code that a field names.
pub open spec fn code_in(v: JsonModel, key: Seq<char>) -> ErrorCode {
    choose|c: ErrorCode| #[trigger] c.name() == text_in(v, key)
}

/// The processes of a list: ID, state and command line.
pub open spec fn summaries_in(v: JsonModel, key: Seq<char>) -> Seq<
    (Seq<char>, Seq<char>, Seq<char>),
> {
    match lookup(v, key) {
        Some(JsonModel::List(items)) => Seq::new(
            items.len(),
            |i: int|
                (text_in(items[i], "id"@), text_in(items[i], "state"@), text_in(items[i], "cmd"@)),
        ),
        _ => Seq::empty(),
    }
}

/// The processes of a list: ID, state and command line.
pub open spec fn summary_views(v: Seq<ProcessSummary>) -> Seq<
    (Seq<char>, Seq<char>, Seq<char>),
> {
    Seq::new(v.len(), |i: int| (v[i].id@, v[i].state@, v[i].cmd@))
}

/// What tells one field name from another: its length and three characters.
spec fn mark(k: Seq<char>) -> (nat, char, char, char) {
    (k.len(), k[0], k.last(), if k.len() > 3 {
        k[3]
    } else {
        k[0]
    })
}

/// The names in a request.
proof fn lemma_request_names()
    ensures
        mark("action"@) == (6nat, 'a', 'n', 'i'),
        mark("command"@) == (7nat, 'c', 'd', 'm'),
        mark("cwd"@) == (3nat, 'c', 'd', 'c'),
        mark("env"@) == (3nat, 'e', 'v', 'e'),
        mark("timeout_ms"@) == (10nat, 't', 's', 'e'),
        mark("keep_stdin_open"@) == (15nat, 'k', 'n', 'p'),
        mark("ephemeral"@) == (9nat, 'e', 'l', 'e'),
        mark("id"@) == (2nat, 'i', 'd', 'i'),
        mark("stream"@) == (6nat, 's', 'm', 'e'),
        mark("offset"@) == (6nat, 'o', 't', 's'),
        mark("limit"@) == (5nat, 'l', 't', 'i'),
        mark("path"@) == (4nat, 'p', 'h', 'h'),
        mark("size"@) == (4nat, 's', 'e', 'e'),
        mark("mode"@) == (4nat, 'm', 'e', 'e'),
        mark("owner"@) == (5nat, 'o', 'r', 'e'),
        mark("group"@) == (5nat, 'g', 'p', 'u'),
        mark("allow_empty"@) == (11nat, 'a', 'y', 'o'),
{
    reveal_strlit("action");
    reveal_strlit("command");
    reveal_strlit("cwd");
    reveal_strlit("env");
    reveal_strlit("timeout_ms");
    reveal_strlit("keep_stdin_open");
    reveal_strlit("ephemeral");
    reveal_strlit("id");
    reveal_strlit("stream");
    reveal_strlit("offset");
    reveal_strlit("limit");
    reveal_strlit("path");
    reveal_strlit("size");
    reveal_strlit("mode");
    reveal_strlit("owner");
    reveal_strlit("group");
    reveal_strlit("allow_empty");
}

/// The names of the requests.
proof fn lemma_actions()
    ensures
        mark("run"@) == (3nat, 'r', 'n', 'r'),
        mark("start"@) == (5nat, 's', 't', 'r'),
        mark("wait"@) == (4nat, 'w', 't', 't'),
        mark("status"@) == (6nat, 's', 's', 't'),
        mark("read"@) == (4nat, 'r', 'd', 'd'),
        mark("write"@) == (5nat, 'w', 'e', 't'),
        mark("put"@) == (3nat, 'p', 't', 'p'),
        mark("put_stream"@) == (10nat, 'p', 'm', '_'),
        mark("get"@) == (3nat, 'g', 't', 'g'),
        mark("close_stdin"@) == (11nat, 'c', 'n', 's'),
        mark("kill"@) == (4nat, 'k', 'l', 'l'),
        mark("list"@) == (4nat, 'l', 't', 't'),
        mark("clean"@) == (5nat, 'c', 'n', 'a'),
        mark("version"@) == (7nat, 'v', 'n', 's'),
        mark("ping"@) == (4nat, 'p', 'g', 'g'),
{
    reveal_strlit("run");
    reveal_strlit("start");
    reveal_strlit("wait");
    reveal_strlit("status");
    reveal_strlit("read");
    reveal_strlit("write");
    reveal_strlit("put");
    reveal_strlit("put_stream");
    reveal_strlit("get");
    reveal_strlit("close_stdin");
    reveal_strlit("kill");
    reveal_strlit("list");
    reveal_strlit("clean");
    reveal_strlit("version");
    reveal_strlit("ping");
}

/// The names in a request to the daemon.
proof fn lemma_daemon_names()
    ensures
        mark("action"@) == (6nat, 'a', 'n', 'i'),
        mark("host"@) == (4nat, 'h', 't', 't'),
        mark("command"@) == (7nat, 'c', 'd', 'm'),
        mark("cwd"@) == (3nat, 'c', 'd', 'c'),
        mark("env"@) == (3nat, 'e', 'v', 'e'),
        mark("timeout_ms"@) == (10nat, 't', 's', 'e'),
        mark("stdin_b64"@) == (9nat, 's', '4', 'i'),
        mark("keep_stdin_open"@) == (15nat, 'k', 'n', 'p'),
        mark("ephemeral"@) == (9nat, 'e', 'l', 'e'),
        mark("id"@) == (2nat, 'i', 'd', 'i'),
        mark("offset"@) == (6nat, 'o', 't', 's'),
        mark("limit"@) == (5nat, 'l', 't', 'i'),
        mark("data_b64"@) == (8nat, 'd', '4', 'a'),
{
    reveal_strlit("action");
    reveal_strlit("host");
    reveal_strlit("command");
    reveal_strlit("cwd");
    reveal_strlit("env");
    reveal_strlit("timeout_ms");
    reveal_strlit("stdin_b64");
    reveal_strlit("keep_stdin_open");
    reveal_strlit("ephemeral");
    reveal_strlit("id");
    reveal_strlit("offset");
    reveal_strlit("limit");
    reveal_strlit("data_b64");
}

/// The names of the requests to the daemon.
proof fn lemma_daemon_actions()
    ensures
        mark("run"@) == (3nat, 'r', 'n', 'r'),
        mark("start"@) == (5nat, 's', 't', 'r'),
        mark("wait"@) == (4nat, 'w', 't', 't'),
        mark("status"@) == (6nat, 's', 's', 't'),
        mark("stdout"@) == (6nat, 's', 't', 'o'),
        mark("stderr"@) == (6nat, 's', 'r', 'e'),
        mark("write"@) == (5nat, 'w', 'e', 't'),
        mark("close_stdin"@) == (11nat, 'c', 'n', 's'),
        mark("kill"@) == (4nat, 'k', 'l', 'l'),
        mark("list"@) == (4nat, 'l', 't', 't'),
        mark("clean"@) == (5nat, 'c', 'n', 'a'),
        mark("deploy"@) == (6nat, 'd', 'y', 'l'),
        mark("daemon_status"@) == (13nat, 'd', 's', 'm'),
        mark("daemon_stop"@) == (11nat, 'd', 'p', 'm'),
{
    reveal_strlit("run");
    reveal_strlit("start");
    reveal_strlit("wait");
    reveal_strlit("status");
    reveal_strlit("stdout");
    reveal_strlit("stderr");
    reveal_strlit("write");
    reveal_strlit("close_stdin");
    reveal_strlit("kill");
    reveal_strlit("list");
    reveal_strlit("clean");
    reveal_strlit("deploy");
    reveal_strlit("daemon_status");
    reveal_strlit("daemon_stop");
}

/// The names in a response.
proof fn lemma_response_names()
    ensures
        mark("type"@) == (4nat, 't', 'e', 'e'),
        mark("id"@) == (2nat, 'i', 'd', 'i'),
        mark("exit_code"@) == (9nat, 'e', 'e', 't'),
        mark("signal"@) == (6nat, 's', 'l', 'n'),
        mark("exec_error"@) == (10nat, 'e', 'r', 'c'),
        mark("duration_ms"@) == (11nat, 'd', 's', 'a'),
        mark("stdout"@) == (6nat, 's', 't', 'o'),
        mark("stdout_encoding"@) == (15nat, 's', 'g', 'o'),
        mark("stderr"@) == (6nat, 's', 'r', 'e'),
        mark("stderr_encoding"@) == (15nat, 's', 'g', 'e'),
        mark("stdout_size"@) == (11nat, 's', 'e', 'o'),
        mark("stderr_size"@) == (11nat, 's', 'e', 'e'),
        mark("stdout_truncated"@) == (16nat, 's', 'd', 'o'),
        mark("stderr_truncated"@) == (16nat, 's', 'd', 'e'),
        mark("reason"@) == (6nat, 'r', 'n', 's'),
        mark("hint"@) == (4nat, 'h', 't', 't'),
        mark("state"@) == (5nat, 's', 'e', 't'),
        mark("cmd"@) == (3nat, 'c', 'd', 'c'),
        mark("started"@) == (7nat, 's', 'd', 'r'),
        mark("ended"@) == (5nat, 'e', 'd', 'e'),
        mark("data"@) == (4nat, 'd', 'a', 'a'),
        mark("encoding"@) == (8nat, 'e', 'g', 'o'),
        mark("offset"@) == (6nat, 'o', 't', 's'),
        mark("size"@) == (4nat, 's', 'e', 'e'),
        mark("bytes"@) == (5nat, 'b', 's', 'e'),
        mark("path"@) == (4nat, 'p', 'h', 'h'),
        mark("mode"@) == (4nat, 'm', 'e', 'e'),
        mark("processes"@) == (9nat, 'p', 's', 'c'),
        mark("removed"@) == (7nat, 'r', 'd', 'o'),
        mark("version"@) == (7nat, 'v', 'n', 's'),
        mark("protocol"@) == (8nat, 'p', 'l', 't'),
        mark("arch"@) == (4nat, 'a', 'h', 'h'),
        mark("os"@) == (2nat, 'o', 's', 'o'),
        mark("kernel"@) == (6nat, 'k', 'l', 'n'),
        mark("hostname"@) == (8nat, 'h', 'e', 't'),
        mark("distro_id"@) == (9nat, 'd', 'd', 't'),
        mark("distro_version"@) == (14nat, 'd', 'n', 't'),
        mark("message"@) == (7nat, 'm', 'e', 's'),
        mark("code"@) == (4nat, 'c', 'e', 'e'),
        mark("retryable"@) == (9nat, 'r', 'e', 'r'),
{
    reveal_strlit("type");
    reveal_strlit("id");
    reveal_strlit("exit_code");
    reveal_strlit("signal");
    reveal_strlit("exec_error");
    reveal_strlit("duration_ms");
    reveal_strlit("stdout");
    reveal_strlit("stdout_encoding");
    reveal_strlit("stderr");
    reveal_strlit("stderr_encoding");
    reveal_strlit("stdout_size");
    reveal_strlit("stderr_size");
    reveal_strlit("stdout_truncated");
    reveal_strlit("stderr_truncated");
    reveal_strlit("reason");
    reveal_strlit("hint");
    reveal_strlit("state");
    reveal_strlit("cmd");
    reveal_strlit("started");
    reveal_strlit("ended");
    reveal_strlit("data");
    reveal_strlit("encoding");
    reveal_strlit("offset");
    reveal_strlit("size");
    reveal_strlit("bytes");
    reveal_strlit("path");
    reveal_strlit("mode");
    reveal_strlit("processes");
    reveal_strlit("removed");
    reveal_strlit("version");
    reveal_strlit("protocol");
    reveal_strlit("arch");
    reveal_strlit("os");
    reveal_strlit("kernel");
    reveal_strlit("hostname");
    reveal_strlit("distro_id");
    reveal_strlit("distro_version");
    reveal_strlit("message");
    reveal_strlit("code");
    reveal_strlit("retryable");
}

/// The names of the responses, and of the encodings.
proof fn lemma_types()
    ensures
        mark("started"@) == (7nat, 's', 'd', 'r'),
        mark("completed"@) == (9nat, 'c', 'd', 'p'),
        mark("running"@) == (7nat, 'r', 'g', 'n'),
        mark("status"@) == (6nat, 's', 's', 't'),
        mark("output"@) == (6nat, 'o', 't', 'p'),
        mark("written"@) == (7nat, 'w', 'n', 't'),
        mark("copied"@) == (6nat, 'c', 'd', 'i'),
        mark("get_stream"@) == (10nat, 'g', 'm', '_'),
        mark("got"@) == (3nat, 'g', 't', 'g'),
        mark("killed"@) == (6nat, 'k', 'd', 'l'),
        mark("list"@) == (4nat, 'l', 't', 't'),
        mark("cleaned"@) == (7nat, 'c', 'd', 'a'),
        mark("version"@) == (7nat, 'v', 'n', 's'),
        mark("ping"@) == (4nat, 'p', 'g', 'g'),
        mark("error"@) == (5nat, 'e', 'r', 'o'),
        mark("utf8"@) == (4nat, 'u', '8', '8'),
        mark("base64"@) == (6nat, 'b', '4', 'e'),
{
    reveal_strlit("started");
    reveal_strlit("completed");
    reveal_strlit("running");
    reveal_strlit("status");
    reveal_strlit("output");
    reveal_strlit("written");
    reveal_strlit("copied");
    reveal_strlit("get_stream");
    reveal_strlit("got");
    reveal_strlit("killed");
    reveal_strlit("list");
    reveal_strlit("cleaned");
    reveal_strlit("version");
    reveal_strlit("ping");
    reveal_strlit("error");
    reveal_strlit("utf8");
    reveal_strlit("base64");
}

proof fn lemma_texts(v: Seq<Seq<char>>)
    ensures
        crate::json::texts_model(v) is List,
        crate::json::texts_model(v)->List_0.len() == v.len(),
        forall|i: int|
            0 <= i < v.len() ==> (#[trigger] crate::json::texts_model(v)->List_0[i]) == JsonModel::Text(
                v[i],
            ),
{
}

proof fn lemma_summaries(v: Seq<ProcessSummary>)
    ensures
        forall|i: int|
            #![trigger v[i]]
            0 <= i < v.len() ==> {
                let m = crate::protocol::summary_model(v[i]);
                &&& text_in(m, "id"@) == v[i].id@
                &&& text_in(m, "state"@) == v[i].state@
                &&& text_in(m, "cmd"@) == v[i].cmd@
            },
{
    lemma_response_names();
    reveal_with_fuel(member_from, 4);
    assert forall|i: int|
        #![trigger v[i]]
        0 <= i < v.len() implies {
        let m = crate::protocol::summary_model(v[i]);
        &&& text_in(m, "id"@) == v[i].id@
        &&& text_in(m, "state"@) == v[i].state@
        &&& text_in(m, "cmd"@) == v[i].cmd@
    } by {
        let f = crate::protocol::summary_model(v[i])->Object_0;
        lemma_member_from(f, "id"@);
        lemma_member_from(f, "state"@);
        lemma_member_from(f, "cmd"@);
    }
}

proof fn lemma_code_named(code: ErrorCode)
    ensures
        forall|c: ErrorCode| #[trigger] c.name() == code.name() ==> c == code,
{
    assert forall|c: ErrorCode| #[trigger] c.name() == code.name() implies c == code by {
        crate::protocol::lemma_code_names_differ(c, code);
    }
}

// ---------------------------------------------------------------------------
// Requests
// ---------------------------------------------------------------------------

/// What a request says.
pub enum RequestModel {
    Run {
        command: Seq<Seq<char>>,
        cwd: Option<Seq<char>>,
        env: Seq<(Seq<char>, Seq<char>)>,
        timeout_ms: Option<int>,
        keep_stdin_open: bool,
        ephemeral: bool,
    },
    Start { command: Seq<Seq<char>>, cwd: Option<Seq<char>>, env: Seq<(Seq<char>, Seq<char>)> },
    Wait { id: Seq<char>, timeout_ms: Option<int> },
    Status { id: Seq<char> },
    Read { id: Seq<char>, stream: Seq<char>, offset: Option<int>, limit: Option<int> },
    Write { id: Seq<char> },
    Put {
        path: Seq<char>,
        size: Option<int>,
        mode: Option<int>,
        owner: Option<Seq<char>>,
        group: Option<Seq<char>>,
    },
    PutStream {
        path: Seq<char>,
        mode: Option<int>,
        owner: Option<Seq<char>>,
        group: Option<Seq<char>>,
        allow_empty: bool,
    },
    Get { path: Seq<char> },
    CloseStdin { id: Seq<char> },
    Kill { id: Seq<char> },
    List,
    Clean,
    Version,
    Ping,
}

/// What a request says.
pub open spec fn request_model(q: Request) -> RequestModel {
    match q {
        Request::Run { command, cwd, env, timeout_ms, keep_stdin_open, ephemeral } => RequestModel::Run {
            command: views(command@),
            cwd: string_view(cwd),
            env: env.pairs(),
            timeout_ms: lengthened(timeout_ms),
            keep_stdin_open,
            ephemeral,
        },
        Request::Start { command, cwd, env } => RequestModel::Start {
            command: views(command@),
            cwd: string_view(cwd),
            env: env.pairs(),
        },
        Request::Wait { id, timeout_ms } => RequestModel::Wait {
            id: id@,
            timeout_ms: lengthened(timeout_ms),
        },
        Request::Status { id } => RequestModel::Status {
            id: id@,
        },
        Request::Read { id, stream, offset, limit } => RequestModel::Read {
            id: id@,
            stream: stream@,
            offset: lengthened(offset),
            limit: lengthened(limit),
        },
        Request::Write { id } => RequestModel::Write {
            id: id@,
        },
        Request::Put { path, size, mode, owner, group } => RequestModel::Put {
            path: path@,
            size: lengthened(size),
            mode: lengthened(opt_u64(mode)),
            owner: string_view(owner),
            group: string_view(group),
        },
        Request::PutStream { path, mode, owner, group, allow_empty } => RequestModel::PutStream {
            path: path@,
            mode: lengthened(opt_u64(mode)),
            owner: string_view(owner),
            group: string_view(group),
            allow_empty,
        },
        Request::Get { path } => RequestModel::Get {
            path: path@,
        },
        Request::CloseStdin { id } => RequestModel::CloseStdin {
            id: id@,
        },
        Request::Kill { id } => RequestModel::Kill {
            id: id@,
        },
        Request::List => RequestModel::List,
        Request::Clean => RequestModel::Clean,
        Request::Version => RequestModel::Version,
        Request::Ping => RequestModel::Ping,
    }
}

/// The request that a JSON value is.
pub open spec fn read_request(v: JsonModel) -> Option<RequestModel> {
    let kind = text_in(v, "action"@);
    if kind == "run"@ {
        Some(
            RequestModel::Run {
                command: texts_in(v, "command"@),
                cwd: lookup_text(v, "cwd"@),
                env: pairs_in(v, "env"@),
                timeout_ms: number_in(v, "timeout_ms"@),
                keep_stdin_open: flag_in(v, "keep_stdin_open"@),
                ephemeral: flag_in(v, "ephemeral"@),
            },
        )
    } else if kind == "start"@ {
        Some(
            RequestModel::Start {
                command: texts_in(v, "command"@),
                cwd: lookup_text(v, "cwd"@),
                env: pairs_in(v, "env"@),
            },
        )
    } else if kind == "wait"@ {
        Some(
            RequestModel::Wait {
                id: text_in(v, "id"@),
                timeout_ms: number_in(v, "timeout_ms"@),
            },
        )
    } else if kind == "status"@ {
        Some(
            RequestModel::Status {
                id: text_in(v, "id"@),
            },
        )
    } else if kind == "read"@ {
        Some(
            RequestModel::Read {
                id: text_in(v, "id"@),
                stream: text_in(v, "stream"@),
                offset: number_in(v, "offset"@),
                limit: number_in(v, "limit"@),
            },
        )
    } else if kind == "write"@ {
        Some(
            RequestModel::Write {
                id: text_in(v, "id"@),
            },
        )
    } else if kind == "put"@ {
        Some(
            RequestModel::Put {
                path: text_in(v, "path"@),
                size: number_in(v, "size"@),
                mode: number_in(v, "mode"@),
                owner: lookup_text(v, "owner"@),
                group: lookup_text(v, "group"@),
            },
        )
    } else if kind == "put_stream"@ {
        Some(
            RequestModel::PutStream {
                path: text_in(v, "path"@),
                mode: number_in(v, "mode"@),
                owner: lookup_text(v, "owner"@),
                group: lookup_text(v, "group"@),
                allow_empty: flag_in(v, "allow_empty"@),
            },
        )
    } else if kind == "get"@ {
        Some(
            RequestModel::Get {
                path: text_in(v, "path"@),
            },
        )
    } else if kind == "close_stdin"@ {
        Some(
            RequestModel::CloseStdin {
                id: text_in(v, "id"@),
            },
        )
    } else if kind == "kill"@ {
        Some(
            RequestModel::Kill {
                id: text_in(v, "id"@),
            },
        )
    } else if kind == "list"@ {
        Some(RequestModel::List)
    } else if kind == "clean"@ {
        Some(RequestModel::Clean)
    } else if kind == "version"@ {
        Some(RequestModel::Version)
    } else if kind == "ping"@ {
        Some(RequestModel::Ping)
    } else {
        None
    }
}

#[verifier::rlimit(40)]
#[verifier::spinoff_prover]
proof fn lemma_request_run(q: Request)
    requires
        q is Run,
    ensures
        read_request(JsonModel::Object(q.fields())) == Some(request_model(q)),
{
    lemma_request_names();
    lemma_actions();
    let v = JsonModel::Object(q.fields());
    let f = q.fields();
    reveal_with_fuel(member_from, 9);
    lemma_member_from(f, "action"@);
    lemma_member_from(f, "command"@);
    lemma_member_from(f, "cwd"@);
    lemma_member_from(f, "env"@);
    lemma_member_from(f, "timeout_ms"@);
    lemma_member_from(f, "keep_stdin_open"@);
    lemma_member_from(f, "ephemeral"@);
    lemma_texts(views(q->Run_command@));
    assert(texts_in(v, "command"@) =~= views(q->Run_command@));
    assert(pairs_in(v, "env"@) =~= q->Run_env.pairs());
}

#[verifier::rlimit(40)]
#[verifier::spinoff_prover]
proof fn lemma_request_start(q: Request)
    requires
        q is Start,
    ensures
        read_request(JsonModel::Object(q.fields())) == Some(request_model(q)),
{
    lemma_request_names();
    lemma_actions();
    let v = JsonModel::Object(q.fields());
    let f = q.fields();
    reveal_with_fuel(member_from, 6);
    lemma_member_from(f, "action"@);
    lemma_member_from(f, "command"@);
    lemma_member_from(f, "cwd"@);
    lemma_member_from(f, "env"@);
    lemma_texts(views(q->Start_command@));
    assert(texts_in(v, "command"@) =~= views(q->Start_command@));
    assert(pairs_in(v, "env"@) =~= q->Start_env.pairs());
}

#[verifier::rlimit(40)]
#[verifier::spinoff_prover]
proof fn lemma_request_wait(q: Request)
    requires
        q is Wait,
    ensures
        read_request(JsonModel::Object(q.fields())) == Some(request_model(q)),
{
    lemma_request_names();
    lemma_actions();
    let v = JsonModel::Object(q.fields());
    let f = q.fields();
    reveal_with_fuel(member_from, 5);
    lemma_member_from(f, "action"@);
    lemma_member_from(f, "id"@);
    lemma_member_from(f, "timeout_ms"@);
}

#[verifier::rlimit(40)]
#[verifier::spinoff_prover]
proof fn lemma_request_status(q: Request)
    requires
        q is Status,
    ensures
        read_request(JsonModel::Object(q.fields())) == Some(request_model(q)),
{
    lemma_request_names();
    lemma_actions();
    let v = JsonModel::Object(q.fields());
    let f = q.fields();
    reveal_with_fuel(member_from, 4);
    lemma_member_from(f, "action"@);
    lemma_member_from(f, "id"@);
}

#[verifier::rlimit(40)]
#[verifier::spinoff_prover]
proof fn lemma_request_read(q: Request)
    requires
        q is Read,
    ensures
        read_request(JsonModel::Object(q.fields())) == Some(request_model(q)),
{
    lemma_request_names();
    lemma_actions();
    let v = JsonModel::Object(q.fields());
    let f = q.fields();
    reveal_with_fuel(member_from, 7);
    lemma_member_from(f, "action"@);
    lemma_member_from(f, "id"@);
    lemma_member_from(f, "stream"@);
    lemma_member_from(f, "offset"@);
    lemma_member_from(f, "limit"@);
}

#[verifier::rlimit(40)]
#[verifier::spinoff_prover]
proof fn lemma_request_write(q: Request)
    requires
        q is Write,
    ensures
        read_request(JsonModel::Object(q.fields())) == Some(request_model(q)),
{
    lemma_request_names();
    lemma_actions();
    let v = JsonModel::Object(q.fields());
    let f = q.fields();
    reveal_with_fuel(member_from, 4);
    lemma_member_from(f, "action"@);
    lemma_member_from(f, "id"@);
}

#[verifier::rlimit(40)]
#[verifier::spinoff_prover]
proof fn lemma_request_put(q: Request)
    requires
        q is Put,
    ensures
        read_request(JsonModel::Object(q.fields())) == Some(request_model(q)),
{
    lemma_request_names();
    lemma_actions();
    let v = JsonModel::Object(q.fields());
    let f = q.fields();
    reveal_with_fuel(member_from, 8);
    lemma_member_from(f, "action"@);
    lemma_member_from(f, "path"@);
    lemma_member_from(f, "size"@);
    lemma_member_from(f, "mode"@);
    lemma_member_from(f, "owner"@);
    lemma_member_from(f, "group"@);
}

#[verifier::rlimit(40)]
#[verifier::spinoff_prover]
proof fn lemma_request_put_stream(q: Request)
    requires
        q is PutStream,
    ensures
        read_request(JsonModel::Object(q.fields())) == Some(request_model(q)),
{
    lemma_request_names();
    lemma_actions();
    let v = JsonModel::Object(q.fields());
    let f = q.fields();
    reveal_with_fuel(member_from, 8);
    lemma_member_from(f, "action"@);
    lemma_member_from(f, "path"@);
    lemma_member_from(f, "mode"@);
    lemma_member_from(f, "owner"@);
    lemma_member_from(f, "group"@);
    lemma_member_from(f, "allow_empty"@);
}

#[verifier::rlimit(40)]
#[verifier::spinoff_prover]
proof fn lemma_request_get(q: Request)
    requires
        q is Get,
    ensures
        read_request(JsonModel::Object(q.fields())) == Some(request_model(q)),
{
    lemma_request_names();
    lemma_actions();
    let v = JsonModel::Object(q.fields());
    let f = q.fields();
    reveal_with_fuel(member_from, 4);
    lemma_member_from(f, "action"@);
    lemma_member_from(f, "path"@);
}

#[verifier::rlimit(40)]
#[verifier::spinoff_prover]
proof fn lemma_request_close_stdin(q: Request)
    requires
        q is CloseStdin,
    ensures
        read_request(JsonModel::Object(q.fields())) == Some(request_model(q)),
{
    lemma_request_names();
    lemma_actions();
    let v = JsonModel::Object(q.fields());
    let f = q.fields();
    reveal_with_fuel(member_from, 4);
    lemma_member_from(f, "action"@);
    lemma_member_from(f, "id"@);
}

#[verifier::rlimit(40)]
#[verifier::spinoff_prover]
proof fn lemma_request_kill(q: Request)
    requires
        q is Kill,
    ensures
        read_request(JsonModel::Object(q.fields())) == Some(request_model(q)),
{
    lemma_request_names();
    lemma_actions();
    let v = JsonModel::Object(q.fields());
    let f = q.fields();
    reveal_with_fuel(member_from, 4);
    lemma_member_from(f, "action"@);
    lemma_member_from(f, "id"@);
}

#[verifier::rlimit(40)]
#[verifier::spinoff_prover]
proof fn lemma_request_list(q: Request)
    requires
        q is List,
    ensures
        read_request(JsonModel::Object(q.fields())) == Some(request_model(q)),
{
    lemma_request_names();
    lemma_actions();
    let v = JsonModel::Object(q.fields());
    let f = q.fields();
    reveal_with_fuel(member_from, 3);
    lemma_member_from(f, "action"@);
}

#[verifier::rlimit(40)]
#[verifier::spinoff_prover]
proof fn lemma_request_clean(q: Request)
    requires
        q is Clean,
    ensures
        read_request(JsonModel::Object(q.fields())) == Some(request_model(q)),
{
    lemma_request_names();
    lemma_actions();
    let v = JsonModel::Object(q.fields());
    let f = q.fields();
    reveal_with_fuel(member_from, 3);
    lemma_member_from(f, "action"@);
}

#[verifier::rlimit(40)]
#[verifier::spinoff_prover]
proof fn lemma_request_version(q: Request)
    requires
        q is Version,
    ensures
        read_request(JsonModel::Object(q.fields())) == Some(request_model(q)),
{
    lemma_request_names();
    lemma_actions();
    let v = JsonModel::Object(q.fields());
    let f = q.fields();
    reveal_with_fuel(member_from, 3);
    lemma_member_from(f, "action"@);
}

#[verifier::rlimit(40)]
#[verifier::spinoff_prover]
proof fn lemma_request_ping(q: Request)
    requires
        q is Ping,
    ensures
        read_request(JsonModel::Object(q.fields())) == Some(request_model(q)),
{
    lemma_request_names();
    lemma_actions();
    let v = JsonModel::Object(q.fields());
    let f = q.fields();
    reveal_with_fuel(member_from, 3);
    lemma_member_from(f, "action"@);
}

/// A request arrives as it was meant: its JSON form is read back to the same
/// request, in every kind and every field.
pub proof fn lemma_request_is_read_back(q: Request)
    ensures
        read_request(JsonModel::Object(q.fields())) == Some(request_model(q)),
{
    match q {
        Request::Run { .. } => lemma_request_run(q),
        Request::Start { .. } => lemma_request_start(q),
        Request::Wait { .. } => lemma_request_wait(q),
        Request::Status { .. } => lemma_request_status(q),
        Request::Read { .. } => lemma_request_read(q),
        Request::Write { .. } => lemma_request_write(q),
        Request::Put { .. } => lemma_request_put(q),
        Request::PutStream { .. } => lemma_request_put_stream(q),
        Request::Get { .. } => lemma_request_get(q),
        Request::CloseStdin { .. } => lemma_request_close_stdin(q),
        Request::Kill { .. } => lemma_request_kill(q),
        Request::List => lemma_request_list(q),
        Request::Clean => lemma_request_clean(q),
        Request::Version => lemma_request_version(q),
        Request::Ping => lemma_request_ping(q),
    }
}

/// Two requests that look alike on the wire are alike.
pub proof fn lemma_requests_differ_on_the_wire(a: Request, b: Request)
    ensures
        a.fields() == b.fields() ==> request_model(a) == request_model(b),
{
    lemma_request_is_read_back(a);
    lemma_request_is_read_back(b);
}

// ---------------------------------------------------------------------------
// Requests to the daemon
// ---------------------------------------------------------------------------

/// What a request to the daemon says.
pub enum DaemonModel {
    Run {
        host: Seq<char>,
        command: Seq<Seq<char>>,
        cwd: Option<Seq<char>>,
        env: Seq<(Seq<char>, Seq<char>)>,
        timeout_ms: Option<int>,
        stdin_b64: Option<Seq<char>>,
        keep_stdin_open: bool,
        ephemeral: bool,
    },
    Start {
        host: Seq<char>,
        command: Seq<Seq<char>>,
        cwd: Option<Seq<char>>,
        env: Seq<(Seq<char>, Seq<char>)>,
    },
    Wait { host: Seq<char>, id: Seq<char>, timeout_ms: Option<int> },
    Status { host: Seq<char>, id: Seq<char> },
    Stdout { host: Seq<char>, id: Seq<char>, offset: Option<int>, limit: Option<int> },
    Stderr { host: Seq<char>, id: Seq<char>, offset: Option<int>, limit: Option<int> },
    Write { host: Seq<char>, id: Seq<char>, data_b64: Seq<char> },
    CloseStdin { host: Seq<char>, id: Seq<char> },
    Kill { host: Seq<char>, id: Seq<char> },
    List { host: Seq<char> },
    Clean { host: Seq<char> },
    Deploy { host: Seq<char> },
    DaemonStatus,
    DaemonStop,
}

/// What a request to the daemon says.
pub open spec fn daemon_model(q: DaemonRequest) -> DaemonModel {
    match q {
        DaemonRequest::Run { host, command, cwd, env, timeout_ms, stdin_b64, keep_stdin_open, ephemeral } => DaemonModel::Run {
            host: host@,
            command: views(command@),
            cwd: string_view(cwd),
            env: env.pairs(),
            timeout_ms: lengthened(timeout_ms),
            stdin_b64: string_view(stdin_b64),
            keep_stdin_open,
            ephemeral,
        },
        DaemonRequest::Start { host, command, cwd, env } => DaemonModel::Start {
            host: host@,
            command: views(command@),
            cwd: string_view(cwd),
            env: env.pairs(),
        },
        DaemonRequest::Wait { host, id, timeout_ms } => DaemonModel::Wait {
            host: host@,
            id: id@,
            timeout_ms: lengthened(timeout_ms),
        },
        DaemonRequest::Status { host, id } => DaemonModel::Status {
            host: host@,
            id: id@,
        },
        DaemonRequest::Stdout { host, id, offset, limit } => DaemonModel::Stdout {
            host: host@,
            id: id@,
            offset: lengthened(offset),
            limit: lengthened(limit),
        },
        DaemonRequest::Stderr { host, id, offset, limit } => DaemonModel::Stderr {
            host: host@,
            id: id@,
            offset: lengthened(offset),
            limit: lengthened(limit),
        },
        DaemonRequest::Write { host, id, data_b64 } => DaemonModel::Write {
            host: host@,
            id: id@,
            data_b64: data_b64@,
        },
        DaemonRequest::CloseStdin { host, id } => DaemonModel::CloseStdin {
            host: host@,
            id: id@,
        },
        DaemonRequest::Kill { host, id } => DaemonModel::Kill {
            host: host@,
            id: id@,
        },
        DaemonRequest::List { host } => DaemonModel::List {
            host: host@,
        },
        DaemonRequest::Clean { host } => DaemonModel::Clean {
            host: host@,
        },
        DaemonRequest::Deploy { host } => DaemonModel::Deploy {
            host: host@,
        },
        DaemonRequest::DaemonStatus => DaemonModel::DaemonStatus,
        DaemonRequest::DaemonStop => DaemonModel::DaemonStop,
    }
}

/// The request to the daemon that a JSON value is.
pub open spec fn read_daemon_request(v: JsonModel) -> Option<DaemonModel> {
    let kind = text_in(v, "action"@);
    if kind == "run"@ {
        Some(
            DaemonModel::Run {
                host: text_in(v, "host"@),
                command: texts_in(v, "command"@),
                cwd: lookup_text(v, "cwd"@),
                env: pairs_in(v, "env"@),
                timeout_ms: number_in(v, "timeout_ms"@),
                stdin_b64: lookup_text(v, "stdin_b64"@),
                keep_stdin_open: flag_in(v, "keep_stdin_open"@),
                ephemeral: flag_in(v, "ephemeral"@),
            },
        )
    } else if kind == "start"@ {
        Some(
            DaemonModel::Start {
                host: text_in(v, "host"@),
                command: texts_in(v, "command"@),
                cwd: lookup_text(v, "cwd"@),
                env: pairs_in(v, "env"@),
            },
        )
    } else if kind == "wait"@ {
        Some(
            DaemonModel::Wait {
                host: text_in(v, "host"@),
                id: text_in(v, "id"@),
                timeout_ms: number_in(v, "timeout_ms"@),
            },
        )
    } else if kind == "status"@ {
        Some(
            DaemonModel::Status {
                host: text_in(v, "host"@),
                id: text_in(v, "id"@),
            },
        )
    } else if kind == "stdout"@ {
        Some(
            DaemonModel::Stdout {
                host: text_in(v, "host"@),
                id: text_in(v, "id"@),
                offset: number_in(v, "offset"@),
                limit: number_in(v, "limit"@),
            },
        )
    } else if kind == "stderr"@ {
        Some(
            DaemonModel::Stderr {
                host: text_in(v, "host"@),
                id: text_in(v, "id"@),
                offset: number_in(v, "offset"@),
                limit: number_in(v, "limit"@),
            },
        )
    } else if kind == "write"@ {
        Some(
            DaemonModel::Write {
                host: text_in(v, "host"@),
                id: text_in(v, "id"@),
                data_b64: text_in(v, "data_b64"@),
            },
        )
    } else if kind == "close_stdin"@ {
        Some(
            DaemonModel::CloseStdin {
                host: text_in(v, "host"@),
                id: text_in(v, "id"@),
            },
        )
    } else if kind == "kill"@ {
        Some(
            DaemonModel::Kill {
                host: text_in(v, "host"@),
                id: text_in(v, "id"@),
            },
        )
    } else if kind == "list"@ {
        Some(
            DaemonModel::List {
                host: text_in(v, "host"@),
            },
        )
    } else if kind == "clean"@ {
        Some(
            DaemonModel::Clean {
                host: text_in(v, "host"@),
            },
        )
    } else if kind == "deploy"@ {
        Some(
            DaemonModel::Deploy {
                host: text_in(v, "host"@),
            },
        )
    } else if kind == "daemon_status"@ {
        Some(DaemonModel::DaemonStatus)
    } else if kind == "daemon_stop"@ {
        Some(DaemonModel::DaemonStop)
    } else {
        None
    }
}

#[verifier::rlimit(40)]
#[verifier::spinoff_prover]
proof fn lemma_daemon_request_run(q: DaemonRequest)
    requires
        q is Run,
    ensures
        read_daemon_request(JsonModel::Object(q.fields())) == Some(daemon_model(q)),
{
    lemma_daemon_names();
    lemma_daemon_actions();
    let v = JsonModel::Object(q.fields());
    let f = q.fields();
    reveal_with_fuel(member_from, 11);
    lemma_member_from(f, "action"@);
    lemma_member_from(f, "host"@);
    lemma_member_from(f, "command"@);
    lemma_member_from(f, "cwd"@);
    lemma_member_from(f, "env"@);
    lemma_member_from(f, "timeout_ms"@);
    lemma_member_from(f, "stdin_b64"@);
    lemma_member_from(f, "keep_stdin_open"@);
    lemma_member_from(f, "ephemeral"@);
    lemma_texts(views(q->Run_command@));
    assert(texts_in(v, "command"@) =~= views(q->Run_command@));
    assert(pairs_in(v, "env"@) =~= q->Run_env.pairs());
}

#[verifier::rlimit(40)]
#[verifier::spinoff_prover]
proof fn lemma_daemon_request_start(q: DaemonRequest)
    requires
        q is Start,
    ensures
        read_daemon_request(JsonModel::Object(q.fields())) == Some(daemon_model(q)),
{
    lemma_daemon_names();
    lemma_daemon_actions();
    let v = JsonModel::Object(q.fields());
    let f = q.fields();
    reveal_with_fuel(member_from, 7);
    lemma_member_from(f, "action"@);
    lemma_member_from(f, "host"@);
    lemma_member_from(f, "command"@);
    lemma_member_from(f, "cwd"@);
    lemma_member_from(f, "env"@);
    lemma_texts(views(q->Start_command@));
    assert(texts_in(v, "command"@) =~= views(q->Start_command@));
    assert(pairs_in(v, "env"@) =~= q->Start_env.pairs());
}

#[verifier::rlimit(40)]
#[verifier::spinoff_prover]
proof fn lemma_daemon_request_wait(q: DaemonRequest)
    requires
        q is Wait,
    ensures
        read_daemon_request(JsonModel::Object(q.fields())) == Some(daemon_model(q)),
{
    lemma_daemon_names();
    lemma_daemon_actions();
    let v = JsonModel::Object(q.fields());
    let f = q.fields();
    reveal_with_fuel(member_from, 6);
    lemma_member_from(f, "action"@);
    lemma_member_from(f, "host"@);
    lemma_member_from(f, "id"@);
    lemma_member_from(f, "timeout_ms"@);
}

#[verifier::rlimit(40)]
#[verifier::spinoff_prover]
proof fn lemma_daemon_request_status(q: DaemonRequest)
    requires
        q is Status,
    ensures
        read_daemon_request(JsonModel::Object(q.fields())) == Some(daemon_model(q)),
{
    lemma_daemon_names();
    lemma_daemon_actions();
    let v = JsonModel::Object(q.fields());
    let f = q.fields();
    reveal_with_fuel(member_from, 5);
    lemma_member_from(f, "action"@);
    lemma_member_from(f, "host"@);
    lemma_member_from(f, "id"@);
}

#[verifier::rlimit(40)]
#[verifier::spinoff_prover]
proof fn lemma_daemon_request_stdout(q: DaemonRequest)
    requires
        q is Stdout,
    ensures
        read_daemon_request(JsonModel::Object(q.fields())) == Some(daemon_model(q)),
{
    lemma_daemon_names();
    lemma_daemon_actions();
    let v = JsonModel::Object(q.fields());
    let f = q.fields();
    reveal_with_fuel(member_from, 7);
    lemma_member_from(f, "action"@);
    lemma_member_from(f, "host"@);
    lemma_member_from(f, "id"@);
    lemma_member_from(f, "offset"@);
    lemma_member_from(f, "limit"@);
}

#[verifier::rlimit(40)]
#[verifier::spinoff_prover]
proof fn lemma_daemon_request_stderr(q: DaemonRequest)
    requires
        q is Stderr,
    ensures
        read_daemon_request(JsonModel::Object(q.fields())) == Some(daemon_model(q)),
{
    lemma_daemon_names();
    lemma_daemon_actions();
    let v = JsonModel::Object(q.fields());
    let f = q.fields();
    reveal_with_fuel(member_from, 7);
    lemma_member_from(f, "action"@);
    lemma_member_from(f, "host"@);
    lemma_member_from(f, "id"@);
    lemma_member_from(f, "offset"@);
    lemma_member_from(f, "limit"@);
}

#[verifier::rlimit(40)]
#[verifier::spinoff_prover]
proof fn lemma_daemon_request_write(q: DaemonRequest)
    requires
        q is Write,
    ensures
        read_daemon_request(JsonModel::Object(q.fields())) == Some(daemon_model(q)),
{
    lemma_daemon_names();
    lemma_daemon_actions();
    let v = JsonModel::Object(q.fields());
    let f = q.fields();
    reveal_with_fuel(member_from, 6);
    lemma_member_from(f, "action"@);
    lemma_member_from(f, "host"@);
    lemma_member_from(f, "id"@);
    lemma_member_from(f, "data_b64"@);
}

#[verifier::rlimit(40)]
#[verifier::spinoff_prover]
proof fn lemma_daemon_request_close_stdin(q: DaemonRequest)
    requires
        q is CloseStdin,
    ensures
        read_daemon_request(JsonModel::Object(q.fields())) == Some(daemon_model(q)),
{
    lemma_daemon_names();
    lemma_daemon_actions();
    let v = JsonModel::Object(q.fields());
    let f = q.fields();
    reveal_with_fuel(member_from, 5);
    lemma_member_from(f, "action"@);
    lemma_member_from(f, "host"@);
    lemma_member_from(f, "id"@);
}

#[verifier::rlimit(40)]
#[verifier::spinoff_prover]
proof fn lemma_daemon_request_kill(q: DaemonRequest)
    requires
        q is Kill,
    ensures
        read_daemon_request(JsonModel::Object(q.fields())) == Some(daemon_model(q)),
{
    lemma_daemon_names();
    lemma_daemon_actions();
    let v = JsonModel::Object(q.fields());
    let f = q.fields();
    reveal_with_fuel(member_from, 5);
    lemma_member_from(f, "action"@);
    lemma_member_from(f, "host"@);
    lemma_member_from(f, "id"@);
}

#[verifier::rlimit(40)]
#[verifier::spinoff_prover]
proof fn lemma_daemon_request_list(q: DaemonRequest)
    requires
        q is List,
    ensures
        read_daemon_request(JsonModel::Object(q.fields())) == Some(daemon_model(q)),
{
    lemma_daemon_names();
    lemma_daemon_actions();
    let v = JsonModel::Object(q.fields());
    let f = q.fields();
    reveal_with_fuel(member_from, 4);
    lemma_member_from(f, "action"@);
    lemma_member_from(f, "host"@);
}

#[verifier::rlimit(40)]
#[verifier::spinoff_prover]
proof fn lemma_daemon_request_clean(q: DaemonRequest)
    requires
        q is Clean,
    ensures
        read_daemon_request(JsonModel::Object(q.fields())) == Some(daemon_model(q)),
{
    lemma_daemon_names();
    lemma_daemon_actions();
    let v = JsonModel::Object(q.fields());
    let f = q.fields();
    reveal_with_fuel(member_from, 4);
    lemma_member_from(f, "action"@);
    lemma_member_from(f, "host"@);
}

#[verifier::rlimit(40)]
#[verifier::spinoff_prover]
proof fn lemma_daemon_request_deploy(q: DaemonRequest)
    requires
        q is Deploy,
    ensures
        read_daemon_request(JsonModel::Object(q.fields())) == Some(daemon_model(q)),
{
    lemma_daemon_names();
    lemma_daemon_actions();
    let v = JsonModel::Object(q.fields());
    let f = q.fields();
    reveal_with_fuel(member_from, 4);
    lemma_member_from(f, "action"@);
    lemma_member_from(f, "host"@);
}

#[verifier::rlimit(40)]
#[verifier::spinoff_prover]
proof fn lemma_daemon_request_daemon_status(q: DaemonRequest)
    requires
        q is DaemonStatus,
    ensures
        read_daemon_request(JsonModel::Object(q.fields())) == Some(daemon_model(q)),
{
    lemma_daemon_names();
    lemma_daemon_actions();
    let v = JsonModel::Object(q.fields());
    let f = q.fields();
    reveal_with_fuel(member_from, 3);
    lemma_member_from(f, "action"@);
}

#[verifier::rlimit(40)]
#[verifier::spinoff_prover]
proof fn lemma_daemon_request_daemon_stop(q: DaemonRequest)
    requires
        q is DaemonStop,
    ensures
        read_daemon_request(JsonModel::Object(q.fields())) == Some(daemon_model(q)),
{
    lemma_daemon_names();
    lemma_daemon_actions();
    let v = JsonModel::Object(q.fields());
    let f = q.fields();
    reveal_with_fuel(member_from, 3);
    lemma_member_from(f, "action"@);
}

/// A request reaches the daemon as it was meant: its JSON form is read back to
/// the same request, in every kind and every field.
pub proof fn lemma_daemon_request_is_read_back(q: DaemonRequest)
    ensures
        read_daemon_request(JsonModel::Object(q.fields())) == Some(daemon_model(q)),
{
    match q {
        DaemonRequest::Run { .. } => lemma_daemon_request_run(q),
        DaemonRequest::Start { .. } => lemma_daemon_request_start(q),
        DaemonRequest::Wait { .. } => lemma_daemon_request_wait(q),
        DaemonRequest::Status { .. } => lemma_daemon_request_status(q),
        DaemonRequest::Stdout { .. } => lemma_daemon_request_stdout(q),
        DaemonRequest::Stderr { .. } => lemma_daemon_request_stderr(q),
        DaemonRequest::Write { .. } => lemma_daemon_request_write(q),
        DaemonRequest::CloseStdin { .. } => lemma_daemon_request_close_stdin(q),
        DaemonRequest::Kill { .. } => lemma_daemon_request_kill(q),
        DaemonRequest::List { .. } => lemma_daemon_request_list(q),
        DaemonRequest::Clean { .. } => lemma_daemon_request_clean(q),
        DaemonRequest::Deploy { .. } => lemma_daemon_request_deploy(q),
        DaemonRequest::DaemonStatus => lemma_daemon_request_daemon_status(q),
        DaemonRequest::DaemonStop => lemma_daemon_request_daemon_stop(q),
    }
}

// ---------------------------------------------------------------------------
// Responses
// ---------------------------------------------------------------------------

/// What a response says.
#[allow(inconsistent_fields)]
pub enum ResponseModel {
    Started { id: Seq<char> },
    Completed {
        id: Seq<char>,
        exit_code: Option<int>,
        signal: Option<int>,
        exec_error: Option<Seq<char>>,
        duration_ms: int,
        stdout: Seq<char>,
        stdout_encoding: Encoding,
        stderr: Seq<char>,
        stderr_encoding: Encoding,
        stdout_size: int,
        stderr_size: int,
        stdout_truncated: bool,
        stderr_truncated: bool,
    },
    Running {
        id: Seq<char>,
        reason: Seq<char>,
        stdout_size: int,
        stderr_size: int,
        hint: Seq<char>,
    },
    Status {
        id: Seq<char>,
        state: Seq<char>,
        cmd: Seq<char>,
        started: int,
        ended: Option<int>,
        exit_code: Option<int>,
        signal: Option<int>,
        stdout_size: int,
        stderr_size: int,
    },
    Output { data: Seq<char>, encoding: Encoding, offset: int, size: int },
    Written { bytes: int },
    Copied { path: Seq<char>, bytes: int, mode: Option<Seq<char>> },
    GetStream { size: int, mode: Seq<char> },
    Got { path: Seq<char>, bytes: int, mode: Option<Seq<char>> },
    Killed { id: Seq<char> },
    List { processes: Seq<(Seq<char>, Seq<char>, Seq<char>)> },
    Cleaned { removed: Seq<Seq<char>> },
    Version { version: Seq<char>, protocol: int },
    Ping {
        version: Seq<char>,
        protocol: int,
        arch: Seq<char>,
        os: Seq<char>,
        kernel: Seq<char>,
        hostname: Seq<char>,
        distro_id: Option<Seq<char>>,
        distro_version: Option<Seq<char>>,
    },
    Error { message: Seq<char>, code: ErrorCode, retryable: bool, hint: Option<Seq<char>> },
}

/// What a response says. An error without a code is an internal one.
pub open spec fn response_model(q: Response) -> ResponseModel {
    match q {
        Response::Started { id } => ResponseModel::Started {
            id: id@,
        },
        Response::Completed { id, exit_code, signal, exec_error, duration_ms, stdout, stdout_encoding, stderr, stderr_encoding, stdout_size, stderr_size, stdout_truncated, stderr_truncated } => ResponseModel::Completed {
            id: id@,
            exit_code: widened(exit_code),
            signal: widened(signal),
            exec_error: string_view(exec_error),
            duration_ms: duration_ms as int,
            stdout: stdout@,
            stdout_encoding,
            stderr: stderr@,
            stderr_encoding,
            stdout_size: stdout_size as int,
            stderr_size: stderr_size as int,
            stdout_truncated,
            stderr_truncated,
        },
        Response::Running { id, reason, stdout_size, stderr_size, hint } => ResponseModel::Running {
            id: id@,
            reason: reason@,
            stdout_size: stdout_size as int,
            stderr_size: stderr_size as int,
            hint: hint@,
        },
        Response::Status { id, state, cmd, started, ended, exit_code, signal, stdout_size, stderr_size } => ResponseModel::Status {
            id: id@,
            state: state@,
            cmd: cmd@,
            started: started as int,
            ended: lengthened(ended),
            exit_code: widened(exit_code),
            signal: widened(signal),
            stdout_size: stdout_size as int,
            stderr_size: stderr_size as int,
        },
        Response::Output { data, encoding, offset, size } => ResponseModel::Output {
            data: data@,
            encoding,
            offset: offset as int,
            size: size as int,
        },
        Response::Written { bytes } => ResponseModel::Written {
            bytes: bytes as int,
        },
        Response::Copied { path, bytes, mode } => ResponseModel::Copied {
            path: path@,
            bytes: bytes as int,
            mode: string_view(mode),
        },
        Response::GetStream { size, mode } => ResponseModel::GetStream {
            size: size as int,
            mode: mode@,
        },
        Response::Got { path, bytes, mode } => ResponseModel::Got {
            path: path@,
            bytes: bytes as int,
            mode: string_view(mode),
        },
        Response::Killed { id } => ResponseModel::Killed {
            id: id@,
        },
        Response::List { processes } => ResponseModel::List {
            processes: summary_views(processes@),
        },
        Response::Cleaned { removed } => ResponseModel::Cleaned {
            removed: views(removed@),
        },
        Response::Version { version, protocol } => ResponseModel::Version {
            version: version@,
            protocol: protocol as int,
        },
        Response::Ping { version, protocol, arch, os, kernel, hostname, distro_id, distro_version } => ResponseModel::Ping {
            version: version@,
            protocol: protocol as int,
            arch: arch@,
            os: os@,
            kernel: kernel@,
            hostname: hostname@,
            distro_id: string_view(distro_id),
            distro_version: string_view(distro_version),
        },
        Response::Error { message, code, retryable, hint } => ResponseModel::Error {
            message: message@,
            code: answered_code(code),
            retryable,
            hint: string_view(hint),
        },
    }
}

/// The response that a JSON value is.
pub open spec fn read_response(v: JsonModel) -> Option<ResponseModel> {
    let kind = text_in(v, "type"@);
    if kind == "started"@ {
        Some(
            ResponseModel::Started {
                id: text_in(v, "id"@),
            },
        )
    } else if kind == "completed"@ {
        Some(
            ResponseModel::Completed {
                id: text_in(v, "id"@),
                exit_code: number_in(v, "exit_code"@),
                signal: number_in(v, "signal"@),
                exec_error: lookup_text(v, "exec_error"@),
                duration_ms: number_in(v, "duration_ms"@)->0,
                stdout: text_in(v, "stdout"@),
                stdout_encoding: encoding_in(v, "stdout_encoding"@),
                stderr: text_in(v, "stderr"@),
                stderr_encoding: encoding_in(v, "stderr_encoding"@),
                stdout_size: number_in(v, "stdout_size"@)->0,
                stderr_size: number_in(v, "stderr_size"@)->0,
                stdout_truncated: flag_in(v, "stdout_truncated"@),
                stderr_truncated: flag_in(v, "stderr_truncated"@),
            },
        )
    } else if kind == "running"@ {
        Some(
            ResponseModel::Running {
                id: text_in(v, "id"@),
                reason: text_in(v, "reason"@),
                stdout_size: number_in(v, "stdout_size"@)->0,
                stderr_size: number_in(v, "stderr_size"@)->0,
                hint: text_in(v, "hint"@),
            },
        )
    } else if kind == "status"@ {
        Some(
            ResponseModel::Status {
                id: text_in(v, "id"@),
                state: text_in(v, "state"@),
                cmd: text_in(v, "cmd"@),
                started: number_in(v, "started"@)->0,
                ended: number_in(v, "ended"@),
                exit_code: number_in(v, "exit_code"@),
                signal: number_in(v, "signal"@),
                stdout_size: number_in(v, "stdout_size"@)->0,
                stderr_size: number_in(v, "stderr_size"@)->0,
            },
        )
    } else if kind == "output"@ {
        Some(
            ResponseModel::Output {
                data: text_in(v, "data"@),
                encoding: encoding_in(v, "encoding"@),
                offset: number_in(v, "offset"@)->0,
                size: number_in(v, "size"@)->0,
            },
        )
    } else if kind == "written"@ {
        Some(
            ResponseModel::Written {
                bytes: number_in(v, "bytes"@)->0,
            },
        )
    } else if kind == "copied"@ {
        Some(
            ResponseModel::Copied {
                path: text_in(v, "path"@),
                bytes: number_in(v, "bytes"@)->0,
                mode: lookup_text(v, "mode"@),
            },
        )
    } else if kind == "get_stream"@ {
        Some(
            ResponseModel::GetStream {
                size: number_in(v, "size"@)->0,
                mode: text_in(v, "mode"@),
            },
        )
    } else if kind == "got"@ {
        Some(
            ResponseModel::Got {
                path: text_in(v, "path"@),
                bytes: number_in(v, "bytes"@)->0,
                mode: lookup_text(v, "mode"@),
            },
        )
    } else if kind == "killed"@ {
        Some(
            ResponseModel::Killed {
                id: text_in(v, "id"@),
            },
        )
    } else if kind == "list"@ {
        Some(
            ResponseModel::List {
                processes: summaries_in(v, "processes"@),
            },
        )
    } else if kind == "cleaned"@ {
        Some(
            ResponseModel::Cleaned {
                removed: texts_in(v, "removed"@),
            },
        )
    } else if kind == "version"@ {
        Some(
            ResponseModel::Version {
                version: text_in(v, "version"@),
                protocol: number_in(v, "protocol"@)->0,
            },
        )
    } else if kind == "ping"@ {
        Some(
            ResponseModel::Ping {
                version: text_in(v, "version"@),
                protocol: number_in(v, "protocol"@)->0,
                arch: text_in(v, "arch"@),
                os: text_in(v, "os"@),
                kernel: text_in(v, "kernel"@),
                hostname: text_in(v, "hostname"@),
                distro_id: lookup_text(v, "distro_id"@),
                distro_version: lookup_text(v, "distro_version"@),
            },
        )
    } else if kind == "error"@ {
        Some(
            ResponseModel::Error {
                message: text_in(v, "message"@),
                code: code_in(v, "code"@),
                retryable: flag_in(v, "retryable"@),
                hint: lookup_text(v, "hint"@),
            },
        )
    } else {
        None
    }
}

#[verifier::rlimit(40)]
#[verifier::spinoff_prover]
proof fn lemma_response_started(q: Response)
    requires
        q is Started,
    ensures
        read_response(JsonModel::Object(q.fields())) == Some(response_model(q)),
{
    lemma_response_names();
    lemma_types();
    let v = JsonModel::Object(q.fields());
    let f = q.fields();
    reveal_with_fuel(member_from, 4);
    lemma_member_from(f, "type"@);
    lemma_member_from(f, "id"@);
}

#[verifier::rlimit(40)]
#[verifier::spinoff_prover]
proof fn lemma_response_completed(q: Response)
    requires
        q is Completed,
    ensures
        read_response(JsonModel::Object(q.fields())) == Some(response_model(q)),
{
    lemma_response_names();
    lemma_types();
    let v = JsonModel::Object(q.fields());
    let f = q.fields();
    reveal_with_fuel(member_from, 16);
    lemma_member_from(f, "type"@);
    lemma_member_from(f, "id"@);
    lemma_member_from(f, "exit_code"@);
    lemma_member_from(f, "signal"@);
    lemma_member_from(f, "exec_error"@);
    lemma_member_from(f, "duration_ms"@);
    lemma_member_from(f, "stdout"@);
    lemma_member_from(f, "stdout_encoding"@);
    lemma_member_from(f, "stderr"@);
    lemma_member_from(f, "stderr_encoding"@);
    lemma_member_from(f, "stdout_size"@);
    lemma_member_from(f, "stderr_size"@);
    lemma_member_from(f, "stdout_truncated"@);
    lemma_member_from(f, "stderr_truncated"@);
}

#[verifier::rlimit(40)]
#[verifier::spinoff_prover]
proof fn lemma_response_running(q: Response)
    requires
        q is Running,
    ensures
        read_response(JsonModel::Object(q.fields())) == Some(response_model(q)),
{
    lemma_response_names();
    lemma_types();
    let v = JsonModel::Object(q.fields());
    let f = q.fields();
    reveal_with_fuel(member_from, 8);
    lemma_member_from(f, "type"@);
    lemma_member_from(f, "id"@);
    lemma_member_from(f, "reason"@);
    lemma_member_from(f, "stdout_size"@);
    lemma_member_from(f, "stderr_size"@);
    lemma_member_from(f, "hint"@);
}

#[verifier::rlimit(40)]
#[verifier::spinoff_prover]
proof fn lemma_response_status(q: Response)
    requires
        q is Status,
    ensures
        read_response(JsonModel::Object(q.fields())) == Some(response_model(q)),
{
    lemma_response_names();
    lemma_types();
    let v = JsonModel::Object(q.fields());
    let f = q.fields();
    reveal_with_fuel(member_from, 12);
    lemma_member_from(f, "type"@);
    lemma_member_from(f, "id"@);
    lemma_member_from(f, "state"@);
    lemma_member_from(f, "cmd"@);
    lemma_member_from(f, "started"@);
    lemma_member_from(f, "ended"@);
    lemma_member_from(f, "exit_code"@);
    lemma_member_from(f, "signal"@);
    lemma_member_from(f, "stdout_size"@);
    lemma_member_from(f, "stderr_size"@);
}

#[verifier::rlimit(40)]
#[verifier::spinoff_prover]
proof fn lemma_response_output(q: Response)
    requires
        q is Output,
    ensures
        read_response(JsonModel::Object(q.fields())) == Some(response_model(q)),
{
    lemma_response_names();
    lemma_types();
    let v = JsonModel::Object(q.fields());
    let f = q.fields();
    reveal_with_fuel(member_from, 7);
    lemma_member_from(f, "type"@);
    lemma_member_from(f, "data"@);
    lemma_member_from(f, "encoding"@);
    lemma_member_from(f, "offset"@);
    lemma_member_from(f, "size"@);
}

#[verifier::rlimit(40)]
#[verifier::spinoff_prover]
proof fn lemma_response_written(q: Response)
    requires
        q is Written,
    ensures
        read_response(JsonModel::Object(q.fields())) == Some(response_model(q)),
{
    lemma_response_names();
    lemma_types();
    let v = JsonModel::Object(q.fields());
    let f = q.fields();
    reveal_with_fuel(member_from, 4);
    lemma_member_from(f, "type"@);
    lemma_member_from(f, "bytes"@);
}

#[verifier::rlimit(40)]
#[verifier::spinoff_prover]
proof fn lemma_response_copied(q: Response)
    requires
        q is Copied,
    ensures
        read_response(JsonModel::Object(q.fields())) == Some(response_model(q)),
{
    lemma_response_names();
    lemma_types();
    let v = JsonModel::Object(q.fields());
    let f = q.fields();
    reveal_with_fuel(member_from, 6);
    lemma_member_from(f, "type"@);
    lemma_member_from(f, "path"@);
    lemma_member_from(f, "bytes"@);
    lemma_member_from(f, "mode"@);
}

#[verifier::rlimit(40)]
#[verifier::spinoff_prover]
proof fn lemma_response_get_stream(q: Response)
    requires
        q is GetStream,
    ensures
        read_response(JsonModel::Object(q.fields())) == Some(response_model(q)),
{
    lemma_response_names();
    lemma_types();
    let v = JsonModel::Object(q.fields());
    let f = q.fields();
    reveal_with_fuel(member_from, 5);
    lemma_member_from(f, "type"@);
    lemma_member_from(f, "size"@);
    lemma_member_from(f, "mode"@);
}

#[verifier::rlimit(40)]
#[verifier::spinoff_prover]
proof fn lemma_response_got(q: Response)
    requires
        q is Got,
    ensures
        read_response(JsonModel::Object(q.fields())) == Some(response_model(q)),
{
    lemma_response_names();
    lemma_types();
    let v = JsonModel::Object(q.fields());
    let f = q.fields();
    reveal_with_fuel(member_from, 6);
    lemma_member_from(f, "type"@);
    lemma_member_from(f, "path"@);
    lemma_member_from(f, "bytes"@);
    lemma_member_from(f, "mode"@);
}

#[verifier::rlimit(40)]
#[verifier::spinoff_prover]
proof fn lemma_response_killed(q: Response)
    requires
        q is Killed,
    ensures
        read_response(JsonModel::Object(q.fields())) == Some(response_model(q)),
{
    lemma_response_names();
    lemma_types();
    let v = JsonModel::Object(q.fields());
    let f = q.fields();
    reveal_with_fuel(member_from, 4);
    lemma_member_from(f, "type"@);
    lemma_member_from(f, "id"@);
}

#[verifier::rlimit(40)]
#[verifier::spinoff_prover]
proof fn lemma_response_list(q: Response)
    requires
        q is List,
    ensures
        read_response(JsonModel::Object(q.fields())) == Some(response_model(q)),
{
    lemma_response_names();
    lemma_types();
    let v = JsonModel::Object(q.fields());
    let f = q.fields();
    reveal_with_fuel(member_from, 4);
    lemma_member_from(f, "type"@);
    lemma_member_from(f, "processes"@);
    assert(summaries_in(v, "processes"@) =~= summary_views(q->processes@)) by {
        lemma_summaries(q->processes@);
    }
}

#[verifier::rlimit(40)]
#[verifier::spinoff_prover]
proof fn lemma_response_cleaned(q: Response)
    requires
        q is Cleaned,
    ensures
        read_response(JsonModel::Object(q.fields())) == Some(response_model(q)),
{
    lemma_response_names();
    lemma_types();
    let v = JsonModel::Object(q.fields());
    let f = q.fields();
    reveal_with_fuel(member_from, 4);
    lemma_member_from(f, "type"@);
    lemma_member_from(f, "removed"@);
    lemma_texts(views(q->removed@));
    assert(texts_in(v, "removed"@) =~= views(q->removed@));
}

#[verifier::rlimit(40)]
#[verifier::spinoff_prover]
proof fn lemma_response_version(q: Response)
    requires
        q is Version,
    ensures
        read_response(JsonModel::Object(q.fields())) == Some(response_model(q)),
{
    lemma_response_names();
    lemma_types();
    let v = JsonModel::Object(q.fields());
    let f = q.fields();
    reveal_with_fuel(member_from, 5);
    lemma_member_from(f, "type"@);
    lemma_member_from(f, "version"@);
    lemma_member_from(f, "protocol"@);
}

#[verifier::rlimit(40)]
#[verifier::spinoff_prover]
proof fn lemma_response_ping(q: Response)
    requires
        q is Ping,
    ensures
        read_response(JsonModel::Object(q.fields())) == Some(response_model(q)),
{
    lemma_response_names();
    lemma_types();
    let v = JsonModel::Object(q.fields());
    let f = q.fields();
    reveal_with_fuel(member_from, 11);
    lemma_member_from(f, "type"@);
    lemma_member_from(f, "version"@);
    lemma_member_from(f, "protocol"@);
    lemma_member_from(f, "arch"@);
    lemma_member_from(f, "os"@);
    lemma_member_from(f, "kernel"@);
    lemma_member_from(f, "hostname"@);
    lemma_member_from(f, "distro_id"@);
    lemma_member_from(f, "distro_version"@);
}

#[verifier::rlimit(40)]
#[verifier::spinoff_prover]
proof fn lemma_response_error(q: Response)
    requires
        q is Error,
    ensures
        read_response(JsonModel::Object(q.fields())) == Some(response_model(q)),
{
    lemma_response_names();
    lemma_types();
    let v = JsonModel::Object(q.fields());
    let f = q.fields();
    reveal_with_fuel(member_from, 7);
    lemma_member_from(f, "type"@);
    lemma_member_from(f, "message"@);
    lemma_member_from(f, "code"@);
    lemma_member_from(f, "retryable"@);
    lemma_member_from(f, "hint"@);
    lemma_code_named(answered_code(q->code));
}

/// A response arrives as it was meant: its JSON form is read back to the same
/// response, in every kind and every field.
pub proof fn lemma_response_is_read_back(q: Response)
    ensures
        read_response(JsonModel::Object(q.fields())) == Some(response_model(q)),
{
    match q {
        Response::Started { .. } => lemma_response_started(q),
        Response::Completed { .. } => lemma_response_completed(q),
        Response::Running { .. } => lemma_response_running(q),
        Response::Status { .. } => lemma_response_status(q),
        Response::Output { .. } => lemma_response_output(q),
        Response::Written { .. } => lemma_response_written(q),
        Response::Copied { .. } => lemma_response_copied(q),
        Response::GetStream { .. } => lemma_response_get_stream(q),
        Response::Got { .. } => lemma_response_got(q),
        Response::Killed { .. } => lemma_response_killed(q),
        Response::List { .. } => lemma_response_list(q),
        Response::Cleaned { .. } => lemma_response_cleaned(q),
        Response::Version { .. } => lemma_response_version(q),
        Response::Ping { .. } => lemma_response_ping(q),
        Response::Error { .. } => lemma_response_error(q),
    }
}

/// The code that goes by this name.
pub open spec fn code_called(name: Seq<char>) -> Option<ErrorCode> {
    if name == "bad_request"@ {
        Some(ErrorCode::BadRequest)
    } else if name == "invalid_process_id"@ {
        Some(ErrorCode::InvalidProcessId)
    } else if name == "process_not_found"@ {
        Some(ErrorCode::ProcessNotFound)
    } else if name == "process_exited"@ {
        Some(ErrorCode::ProcessExited)
    } else if name == "timeout"@ {
        Some(ErrorCode::Timeout)
    } else if name == "not_deployed"@ {
        Some(ErrorCode::NotDeployed)
    } else if name == "deploy_failed"@ {
        Some(ErrorCode::DeployFailed)
    } else if name == "unsupported"@ {
        Some(ErrorCode::Unsupported)
    } else if name == "ssh_unreachable"@ {
        Some(ErrorCode::SshUnreachable)
    } else if name == "ssh_auth"@ {
        Some(ErrorCode::SshAuth)
    } else if name == "bad_host"@ {
        Some(ErrorCode::BadHost)
    } else if name == "incomplete_transfer"@ {
        Some(ErrorCode::IncompleteTransfer)
    } else if name == "empty_stream"@ {
        Some(ErrorCode::EmptyStream)
    } else if name == "file_changed"@ {
        Some(ErrorCode::FileChanged)
    } else if name == "not_found"@ {
        Some(ErrorCode::NotFound)
    } else if name == "internal"@ {
        Some(ErrorCode::Internal)
    } else {
        None
    }
}

/// Every code is known by its name, and no other code goes by it.
pub proof fn lemma_code_is_known_by_name(code: ErrorCode)
    ensures
        code_called(code.name()) == Some(code),
{
    reveal_strlit("bad_request");
    reveal_strlit("invalid_process_id");
    reveal_strlit("process_not_found");
    reveal_strlit("process_exited");
    reveal_strlit("timeout");
    reveal_strlit("not_deployed");
    reveal_strlit("deploy_failed");
    reveal_strlit("unsupported");
    reveal_strlit("ssh_unreachable");
    reveal_strlit("ssh_auth");
    reveal_strlit("bad_host");
    reveal_strlit("incomplete_transfer");
    reveal_strlit("empty_stream");
    reveal_strlit("file_changed");
    reveal_strlit("not_found");
    reveal_strlit("internal");
    lemma_code_marks();
}

/// What tells the names of the codes apart.
proof fn lemma_code_marks()
    ensures
        mark("bad_request"@) == (11nat, 'b', 't', '_'),
        mark("invalid_process_id"@) == (18nat, 'i', 'd', 'a'),
        mark("process_not_found"@) == (17nat, 'p', 'd', 'c'),
        mark("process_exited"@) == (14nat, 'p', 'd', 'c'),
        mark("timeout"@) == (7nat, 't', 't', 'e'),
        mark("not_deployed"@) == (12nat, 'n', 'd', '_'),
        mark("deploy_failed"@) == (13nat, 'd', 'd', 'l'),
        mark("unsupported"@) == (11nat, 'u', 'd', 'u'),
        mark("ssh_unreachable"@) == (15nat, 's', 'e', '_'),
        mark("ssh_auth"@) == (8nat, 's', 'h', '_'),
        mark("bad_host"@) == (8nat, 'b', 't', '_'),
        mark("incomplete_transfer"@) == (19nat, 'i', 'r', 'o'),
        mark("empty_stream"@) == (12nat, 'e', 'm', 't'),
        mark("file_changed"@) == (12nat, 'f', 'd', 'e'),
        mark("not_found"@) == (9nat, 'n', 'd', '_'),
        mark("internal"@) == (8nat, 'i', 'l', 'e'),
{
    reveal_strlit("bad_request");
    reveal_strlit("invalid_process_id");
    reveal_strlit("process_not_found");
    reveal_strlit("process_exited");
    reveal_strlit("timeout");
    reveal_strlit("not_deployed");
    reveal_strlit("deploy_failed");
    reveal_strlit("unsupported");
    reveal_strlit("ssh_unreachable");
    reveal_strlit("ssh_auth");
    reveal_strlit("bad_host");
    reveal_strlit("incomplete_transfer");
    reveal_strlit("empty_stream");
    reveal_strlit("file_changed");
    reveal_strlit("not_found");
    reveal_strlit("internal");
}

} // verus!
