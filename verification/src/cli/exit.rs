//! Exit codes: 0 for success, 1 for a call that failed, 2 for a call that is
//! unusable as written, and the remote command's own status for `run` and `wait`.

use vstd::prelude::*;

use crate::json::{
    lemma_member_absent, lemma_member_at, lookup, lookup_int, lookup_text, Json, JsonModel,
};
use crate::protocol::{answered_code, ErrorCode, Response};
use crate::text::same;

verus! {

/// Exit status for a command that never started, following the shell convention
/// for "command not found".
pub const EXEC_FAILED_EXIT: u8 = 127;

/// The exit status of a failure with this code.
pub open spec fn error_exit_of(code: Option<ErrorCode>) -> u8 {
    match code {
        Some(c) => if c.is_unusable() {
            2
        } else {
            1
        },
        None => 1,
    }
}

/// Exit status for a typed error. An error without a code is a failed operation,
/// not a malformed call.
pub fn error_exit(code: Option<ErrorCode>) -> (r: u8)
    ensures
        r == error_exit_of(code),
{
    match code {
        Some(c) => c.exit_code(),
        None => 1,
    }
}

/// The exit status for a response.
pub open spec fn exit_of(response: Response) -> u8 {
    match response {
        Response::Error { code, .. } => error_exit_of(code),
        _ => 0,
    }
}

/// Map a response to the exit status. A failure's status follows from its own
/// code, so 2 means "this call is unusable as written" wherever the rejection
/// came from.
pub fn exit_for(response: &Response) -> (r: u8)
    ensures
        r == exit_of(*response),
{
    match response {
        Response::Error { code, .. } => error_exit(*code),
        _ => 0,
    }
}

/// A number as an exit status: cut off at both ends.
pub open spec fn status_of(n: int) -> u8 {
    if n < 0 {
        0
    } else if n > 255 {
        255
    } else {
        n as u8
    }
}

fn status(n: i64) -> (r: u8)
    ensures
        r == status_of(n as int),
{
    if n < 0 {
        0
    } else if n > 255 {
        255
    } else {
        n as u8
    }
}

fn signal_status(sig: i64) -> (r: u8)
    ensures
        r == status_of(128 + sig),
{
    if sig > 127 {
        255
    } else {
        status(128 + sig)
    }
}

/// The exit status for the response to a `run`.
pub open spec fn run_exit_of(response: Response) -> u8 {
    match response {
        Response::Completed { exit_code, signal, exec_error, .. } => if exec_error is Some {
            EXEC_FAILED_EXIT
        } else if exit_code is Some {
            status_of(exit_code->0 as int)
        } else if signal is Some {
            status_of(128 + signal->0)
        } else {
            0
        },
        _ => exit_of(response),
    }
}

/// Exit status for a `run`: the remote command's own, so `rx run HOST -- false`
/// behaves like a normal command runner; 128 and the signal where it was killed;
/// and a command that never started does not look like success.
pub fn run_exit(response: &Response) -> (r: u8)
    ensures
        r == run_exit_of(*response),
{
    match response {
        Response::Completed { exit_code, signal, exec_error, .. } => {
            if exec_error.is_some() {
                EXEC_FAILED_EXIT
            } else if let Some(code) = exit_code {
                status(*code as i64)
            } else if let Some(sig) = signal {
                signal_status(*sig as i64)
            } else {
                0
            }
        },
        Response::Error { code, .. } => error_exit(*code),
        _ => 0,
    }
}

// ---------------------------------------------------------------------------
// Answers that arrive as JSON
// ---------------------------------------------------------------------------

/// The value names this error code.
pub open spec fn names_code(v: JsonModel, code: ErrorCode) -> bool {
    lookup_text(v, "code"@) == Some(code.name())
}

/// The exit status of an error that arrived as a value.
pub open spec fn value_error_exit(v: JsonModel) -> u8 {
    if exists|code: ErrorCode| #[trigger] names_code(v, code) && code.is_unusable() {
        2
    } else {
        1
    }
}

/// [`error_exit`] for an error that arrived as a value: routing through the
/// daemon must not change the exit status.
pub fn error_exit_from_value(data: &Json) -> (r: u8)
    ensures
        r == value_error_exit(data.model()),
{
    let code: Option<ErrorCode> = match data.get_text("code") {
        Some(name) => ErrorCode::from_name(name),
        None => None,
    };
    proof {
        let v = data.model();
        match code {
            Some(c) => {
                assert(names_code(v, c));
                assert forall|d: ErrorCode| #[trigger] names_code(v, d) implies d == c by {
                    crate::protocol::lemma_code_names_differ(c, d);
                }
            },
            None => {
                assert forall|d: ErrorCode| !#[trigger] names_code(v, d) by {
                    let n = d.name();
                }
            },
        }
    }
    error_exit(code)
}

/// The exit status of the answer to a `run` that arrived as a value.
pub open spec fn value_run_exit(v: JsonModel) -> u8 {
    if lookup_text(v, "type"@) != Some("completed"@) {
        0
    } else if lookup(v, "exec_error"@) matches Some(e) && e !is Null {
        EXEC_FAILED_EXIT
    } else if lookup_int(v, "exit_code"@) is Some {
        status_of(lookup_int(v, "exit_code"@)->0)
    } else if lookup_int(v, "signal"@) is Some {
        status_of(128 + lookup_int(v, "signal"@)->0)
    } else {
        0
    }
}

/// [`run_exit`] for an answer that arrived as a value.
pub fn run_exit_from_value(data: &Json) -> (r: u8)
    ensures
        r == value_run_exit(data.model()),
{
    let completed = match data.get_text("type") {
        Some(t) => same(t, "completed"),
        None => false,
    };
    if !completed {
        return 0;
    }
    if let Some(e) = data.get("exec_error") {
        if !matches!(e, Json::Null) {
            assert(e.model() !is Null);
            return EXEC_FAILED_EXIT;
        }
    }
    if let Some(code) = data.get_int("exit_code") {
        return status(code);
    }
    if let Some(sig) = data.get_int("signal") {
        return signal_status(sig);
    }
    0
}

/// The exit status of an answer that arrived as a value.
pub open spec fn value_exit(v: JsonModel, by_status: bool) -> u8 {
    if lookup_text(v, "type"@) == Some("error"@) {
        value_error_exit(v)
    } else if by_status {
        value_run_exit(v)
    } else {
        0
    }
}

/// Exit status for an answer that arrived as a value; `by_status` for `run` and
/// `wait`.
pub fn exit_for_value(data: &Json, by_status: bool) -> (r: u8)
    ensures
        r == value_exit(data.model(), by_status),
{
    let failed = match data.get_text("type") {
        Some(t) => same(t, "error"),
        None => false,
    };
    if failed {
        error_exit_from_value(data)
    } else if by_status {
        run_exit_from_value(data)
    } else {
        0
    }
}

proof fn lemma_type_of(r: Response)
    ensures
        lookup_text(JsonModel::Object(r.fields()), "type"@) == Some("error"@) <==> r is Error,
        lookup_text(JsonModel::Object(r.fields()), "type"@) == Some("completed"@) <==> r
            is Completed,
{
    reveal_strlit("error");
    reveal_strlit("completed");
    reveal_strlit("started");
    reveal_strlit("running");
    reveal_strlit("status");
    reveal_strlit("output");
    reveal_strlit("written");
    reveal_strlit("copied");
    reveal_strlit("get_stream");
    reveal_strlit("got");
    reveal_strlit("killed");
    reveal_strlit("list");
    reveal_strlit("cleaned");
    reveal_strlit("version");
    reveal_strlit("ping");
    let f = r.fields();
    assert(f[0].0 == "type"@);
    lemma_member_at(f, "type"@, 0);
    let t = f[0].1->Text_0;
    assert("error"@.len() == 5 && "completed"@.len() == 9);
    assert(t.len() == 5 <==> r is Error);
    assert(t.len() == 9 <==> r is Completed);
}

proof fn lemma_completed_fields(r: Response)
    requires
        r is Completed,
    ensures
        ({
            let v = JsonModel::Object(r.fields());
            &&& (lookup(v, "exec_error"@) matches Some(e) && e !is Null) <==> r->exec_error is Some
            &&& lookup_int(v, "exit_code"@) == crate::protocol::widened(r->Completed_exit_code)
            &&& lookup_int(v, "signal"@) == crate::protocol::widened(r->Completed_signal)
        }),
{
    reveal_strlit("type");
    reveal_strlit("id");
    reveal_strlit("exit_code");
    reveal_strlit("signal");
    reveal_strlit("exec_error");
    reveal_strlit("duration_ms");
    reveal_strlit("stdout");
    reveal_strlit("stdout_encoding");
    reveal_strlit("stderr");
    reveal_strlit("stderr_encoding");
    reveal_strlit("stdout_size");
    reveal_strlit("stderr_size");
    reveal_strlit("stdout_truncated");
    reveal_strlit("stderr_truncated");
    let f = r.fields();
    assert("type"@.len() == 4 && "id"@.len() == 2 && "exit_code"@.len() == 9 && "signal"@.len()
        == 6 && "exec_error"@.len() == 10);
    assert(f[0].0 == "type"@ && f[1].0 == "id"@ && f[2].0 == "exit_code"@ && f[3].0 == "signal"@);
    lemma_member_at(f, "exit_code"@, 2);
    lemma_member_at(f, "signal"@, 3);
    match r->exec_error {
        Some(e) => {
            assert(f[4] == ("exec_error"@, JsonModel::Text(e@)));
            lemma_member_at(f, "exec_error"@, 4);
        },
        None => {
            assert(f.len() == 13);
            assert(f[4].0 == "duration_ms"@ && f[5].0 == "stdout"@ && f[6].0 == "stdout_encoding"@
                && f[7].0 == "stderr"@ && f[8].0 == "stderr_encoding"@ && f[9].0 == "stdout_size"@
                && f[10].0 == "stderr_size"@ && f[11].0 == "stdout_truncated"@ && f[12].0
                == "stderr_truncated"@);
            assert("duration_ms"@.len() == 11 && "stdout"@.len() == 6 && "stdout_encoding"@.len()
                == 15 && "stderr"@.len() == 6 && "stderr_encoding"@.len() == 15
                && "stdout_size"@.len() == 11 && "stderr_size"@.len() == 11
                && "stdout_truncated"@.len() == 16 && "stderr_truncated"@.len() == 16);
            assert forall|i: int| 0 <= i < f.len() implies (#[trigger] f[i]).0 != "exec_error"@ by {
                assert(f[i].0.len() != 10);
            }
            lemma_member_absent(f, "exec_error"@);
        },
    }
}

/// The exit status does not depend on the route: an answer that arrives as a
/// value, through the daemon, exits like the response it was made from.
pub proof fn lemma_value_path_agrees(r: Response)
    ensures
        value_exit(JsonModel::Object(r.fields()), true) == run_exit_of(r),
        value_exit(JsonModel::Object(r.fields()), false) == exit_of(r),
{
    let v = JsonModel::Object(r.fields());
    lemma_type_of(r);
    if r is Error {
        crate::protocol::lemma_errors_are_typed(r);
        let c = answered_code(r->code);
        assert(names_code(v, c));
        assert forall|d: ErrorCode| #[trigger] names_code(v, d) implies d == c by {
            crate::protocol::lemma_code_names_differ(c, d);
        }
    } else if r is Completed {
        lemma_completed_fields(r);
    }
}

/// A command that never started never looks like success to a shell.
pub proof fn lemma_exec_failure_is_not_success(r: Response)
    requires
        r is Completed,
        r->exec_error is Some,
    ensures
        run_exit_of(r) == EXEC_FAILED_EXIT,
        run_exit_of(r) != 0,
{
}

/// The remote command's own exit code is what `run` exits with: a code that a
/// process can have is passed on as it is, so that two commands which end
/// differently are told apart; and a command that a signal ended exits with 128
/// and the number of the signal, as in a shell.
pub proof fn lemma_remote_status_is_passed_on(r: Response, other: Response)
    requires
        r is Completed,
        r->exec_error is None,
        other is Completed,
        other->exec_error is None,
    ensures
        r->Completed_exit_code matches Some(c) ==> 0 <= c <= 255 ==> run_exit_of(r) == c,
        r->Completed_exit_code matches Some(c) ==> c < 0 ==> run_exit_of(r) == 0,
        r->Completed_exit_code matches Some(c) ==> c > 255 ==> run_exit_of(r) == 255,
        r->Completed_exit_code is None ==> (r->Completed_signal matches Some(s) ==> 1 <= s <= 127
            ==> run_exit_of(r) == 128 + s),
        r->Completed_exit_code is None ==> (r->Completed_signal matches Some(s) ==> s > 127
            ==> run_exit_of(r) == 255),
        r->Completed_exit_code is None && r->Completed_signal is None ==> run_exit_of(r) == 0,
        r->Completed_exit_code matches Some(a) ==> other->Completed_exit_code matches Some(b)
            ==> 0 <= a <= 255 && 0 <= b <= 255 && a != b ==> run_exit_of(r) != run_exit_of(other),
{
}

/// The same of an answer that arrived as a value.
pub proof fn lemma_value_status_is_passed_on(v: JsonModel)
    requires
        lookup_text(v, "type"@) == Some("completed"@),
    ensures
        lookup(v, "exec_error"@) is None ==> (lookup(v, "exit_code"@) matches Some(JsonModel::Int(c))
            ==> 0 <= c <= 255 ==> value_exit(v, true) == c),
        lookup(v, "exec_error"@) is None && lookup(v, "exit_code"@) == Some(JsonModel::Null) ==> (
        lookup(v, "signal"@) matches Some(JsonModel::Int(s)) ==> 1 <= s <= 127 ==> value_exit(
            v,
            true,
        ) == 128 + s),
        lookup(v, "exec_error"@) matches Some(JsonModel::Text(_)) ==> value_exit(v, true) == 127,
        value_exit(v, false) == 0,
{
    reveal_strlit("error");
    reveal_strlit("completed");
    assert("error"@.len() != "completed"@.len());
}

/// What an exit status says: 0 where there is an answer and no error, 2 where the
/// call itself has to be changed, and 1 for every other failure. What is worth
/// retrying is never a 2.
pub proof fn lemma_exit_says_whose_fault(r: Response)
    ensures
        exit_of(r) == 0 <==> r !is Error,
        exit_of(r) == 2 <==> (r matches Response::Error { code: Some(c), .. } && (c
            == ErrorCode::BadRequest || c == ErrorCode::InvalidProcessId || c
            == ErrorCode::BadHost)),
        r is Error ==> exit_of(r) == 1 || exit_of(r) == 2,
        r !is Completed ==> run_exit_of(r) == exit_of(r),
        (r matches Response::Error { code: Some(c), .. } && c.is_retryable()) ==> exit_of(r) == 1,
{
}

} // verus!
