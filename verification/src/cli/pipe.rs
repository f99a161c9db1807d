//! Piping local stdin to a remote process.

use vstd::prelude::*;

use crate::cli::exit::{exit_for, exit_of};
use crate::error::{labelled, IoError, IoKind};
use crate::protocol::{is_error, ErrorCode, Response};

verus! {

// ---------------------------------------------------------------------------
// Copying
// ---------------------------------------------------------------------------

/// How copying ended: how much was taken, and whether the other end hung up.
#[derive(Debug, Clone, Copy, PartialEq, Eq, Structural)]
pub struct PipeCopy {
    pub bytes: u64,
    pub broken_pipe: bool,
}

/// Where copying stands: how much was taken in all, and what is left of the last
/// read.
#[derive(Debug, Clone, Copy, PartialEq, Eq, Structural)]
pub struct CopyState {
    pub copied: u64,
    pub at: usize,
    pub to: usize,
}

/// What came of a read from stdin or a write to the other end.
#[derive(Debug)]
pub enum CopyEvent {
    Read(Result<usize, IoError>),
    Wrote(Result<usize, IoError>),
}

/// What to do next.
#[derive(Debug)]
pub enum CopyStep {
    /// Read into the buffer.
    Read,
    /// Write what is left of the buffer.
    Write,
    /// Copying ended like this.
    Done(PipeCopy),
    /// Copying failed.
    Fail(IoError),
}

/// The event is one that can come next: a read when nothing is left, a write of
/// no more than what is left.
pub open spec fn copy_fits(st: CopyState, event: CopyEvent) -> bool {
    match event {
        CopyEvent::Read(_) => st.at == st.to,
        CopyEvent::Wrote(Ok(n)) => st.at < st.to && n <= st.to - st.at && st.copied + n
            <= u64::MAX,
        CopyEvent::Wrote(Err(_)) => st.at < st.to,
    }
}

/// What an event does, and what follows.
pub open spec fn copy_stepped(
    st: CopyState,
    event: CopyEvent,
    new: CopyState,
    step: CopyStep,
) -> bool {
    match event {
        CopyEvent::Read(Ok(n)) => if n == 0 {
            new == st && step == CopyStep::Done(
                PipeCopy { bytes: st.copied, broken_pipe: false },
            )
        } else {
            new == (CopyState { copied: st.copied, at: 0, to: n }) && step is Write
        },
        CopyEvent::Read(Err(e)) => new == st && if e.kind is Interrupted {
            step is Read
        } else {
            step == CopyStep::Fail(e)
        },
        CopyEvent::Wrote(Ok(n)) => if n == 0 {
            new == st && (step matches CopyStep::Fail(e) && e.kind is WriteZero && e.message@
                == "failed to write piped stdin to ssh"@)
        } else {
            new == (CopyState {
                copied: (st.copied + n) as u64,
                at: (st.at + n) as usize,
                to: st.to,
            }) && if st.at + n < st.to {
                step is Write
            } else {
                step is Read
            }
        },
        CopyEvent::Wrote(Err(e)) => new == st && if e.kind is Interrupted {
            step is Write
        } else if e.kind is BrokenPipe {
            step == CopyStep::Done(PipeCopy { bytes: st.copied, broken_pipe: true })
        } else {
            step == CopyStep::Fail(e)
        },
    }
}

/// One step of copying local stdin to a remote process. What was interrupted is
/// done again; a short write goes on with the rest; an end that hung up ends the
/// copying without failing it.
pub fn copy_local_stdin_to_remote(st: &mut CopyState, event: CopyEvent) -> (r: CopyStep)
    requires
        copy_fits(*old(st), event),
    ensures
        copy_stepped(*old(st), event, *final(st), r),
{
    match event {
        CopyEvent::Read(Ok(n)) => {
            if n == 0 {
                return CopyStep::Done(PipeCopy { bytes: st.copied, broken_pipe: false });
            }
            st.at = 0;
            st.to = n;
            CopyStep::Write
        },
        CopyEvent::Read(Err(e)) => match e.kind {
            IoKind::Interrupted => CopyStep::Read,
            _ => CopyStep::Fail(e),
        },
        CopyEvent::Wrote(Ok(n)) => {
            if n == 0 {
                return CopyStep::Fail(
                    IoError {
                        kind: IoKind::WriteZero,
                        message: "failed to write piped stdin to ssh".to_owned(),
                    },
                );
            }
            st.copied = st.copied + n as u64;
            st.at = st.at + n;
            if st.at < st.to {
                CopyStep::Write
            } else {
                CopyStep::Read
            }
        },
        CopyEvent::Wrote(Err(e)) => match e.kind {
            IoKind::Interrupted => CopyStep::Write,
            IoKind::BrokenPipe => CopyStep::Done(
                PipeCopy { bytes: st.copied, broken_pipe: true },
            ),
            _ => CopyStep::Fail(e),
        },
    }
}

/// Copying asks for a read only when nothing of the last one is left, and for a
/// write only when something is: no byte is skipped, and none is written twice.
pub proof fn lemma_copy_is_in_order(
    st: CopyState,
    event: CopyEvent,
    new: CopyState,
    step: CopyStep,
)
    requires
        copy_fits(st, event),
        copy_stepped(st, event, new, step),
    ensures
        step is Read ==> new.at == new.to,
        step is Write ==> new.at < new.to,
        event matches CopyEvent::Wrote(Ok(n)) ==> new.copied - st.copied == new.at - st.at,
        !(event matches CopyEvent::Wrote(Ok(_))) ==> new.copied == st.copied,
{
}

/// Copying goes on until stdin ends: everything that was read is written before more
/// is read, what was interrupted is done again, an end that hung up ends the copying
/// with what it took, and any other failure is the result as it is.
pub proof fn lemma_copy_takes_its_course(
    st: CopyState,
    event: CopyEvent,
    new: CopyState,
    step: CopyStep,
)
    requires
        copy_fits(st, event),
        copy_stepped(st, event, new, step),
    ensures
        event matches CopyEvent::Read(Ok(n)) ==> (n > 0 ==> step is Write && new.to - new.at == n),
        (event matches CopyEvent::Read(Ok(n)) && n == 0) <==> (step matches CopyStep::Done(c)
            && !c.broken_pipe),
        (event matches CopyEvent::Wrote(Err(e)) && e.kind is BrokenPipe) <==> (step
            matches CopyStep::Done(c) && c.broken_pipe),
        step matches CopyStep::Done(c) ==> c.bytes == st.copied,
        (event matches CopyEvent::Read(Err(e)) && e.kind is Interrupted) ==> step is Read && new
            == st,
        (event matches CopyEvent::Wrote(Err(e)) && e.kind is Interrupted) ==> step is Write && new
            == st,
        event matches CopyEvent::Read(Err(e)) ==> (e.kind !is Interrupted ==> step
            == CopyStep::Fail(e)),
        event matches CopyEvent::Wrote(Err(e)) ==> (e.kind !is Interrupted && e.kind !is BrokenPipe
            ==> step == CopyStep::Fail(e)),
        event matches CopyEvent::Wrote(Ok(n)) ==> (n > 0 ==> (step is Read <==> st.at + n == st.to)
            && step !is Fail),
        (event matches CopyEvent::Wrote(Ok(n)) && n == 0) ==> step is Fail,
{
}

// ---------------------------------------------------------------------------
// The outcome
// ---------------------------------------------------------------------------

/// Whether the outcome of piping is reported as an object.
#[derive(Debug, Clone, Copy, PartialEq, Eq, Structural)]
pub enum PipeStdinReport {
    Quiet,
    Written,
}

/// How piping to a process ended.
#[derive(Debug)]
pub enum PipeEnd {
    /// ssh could not be started.
    NotSpawned(String),
    /// Copying failed.
    NotFed(String),
    /// ssh exited; `status` is its exit status as it is shown.
    Exited { code: Option<i32>, success: bool, status: String, copy: PipeCopy },
    /// ssh could not be waited for.
    NotWaited(String),
}

/// `r` is the answer for how piping ended.
pub open spec fn is_pipe_answer(r: Response, host: Seq<char>, id: Seq<char>, end: PipeEnd) -> bool {
    match end {
        PipeEnd::NotSpawned(e) => is_error(
            r,
            ErrorCode::Internal,
            "failed to spawn pipe-stdin for "@ + host + ": "@ + e@,
            None,
        ),
        PipeEnd::NotFed(e) => is_error(
            r,
            ErrorCode::Internal,
            "feeding stdin to "@ + host + ": "@ + e@,
            None,
        ),
        PipeEnd::NotWaited(e) => is_error(
            r,
            ErrorCode::Internal,
            "waiting for ssh to "@ + host + ": "@ + e@,
            None,
        ),
        PipeEnd::Exited { code, success, status, copy } => if code == Some(255i32) {
            is_error(
                r,
                ErrorCode::SshUnreachable,
                "ssh to "@ + host + " failed while feeding stdin to process "@ + id,
                None,
            )
        } else if success && !copy.broken_pipe {
            r matches Response::Written { bytes } && bytes == copy.bytes
        } else {
            is_error(
                r,
                ErrorCode::ProcessExited,
                "process "@ + id + " on "@ + host
                    + " did not accept piped stdin (rxd pipe-stdin exited with "@ + status@ + ")"@,
                None,
            )
        },
    }
}

/// Piping failed, apart from a process that did not take all of it: OpenSSH
/// reserves 255 for its own failures, while rxd only ever exits 0 or 1.
pub open spec fn pipe_failed(end: PipeEnd) -> bool {
    match end {
        PipeEnd::Exited { code, .. } => code == Some(255i32),
        _ => true,
    }
}

/// The number of bytes fits in memory sizes, as it does on a 64-bit machine.
pub open spec fn countable(end: PipeEnd) -> bool {
    end matches PipeEnd::Exited { copy, .. } ==> copy.bytes <= usize::MAX
}

fn pipe_answer(host: &str, id: &str, end: &PipeEnd) -> (r: Response)
    requires
        countable(*end),
    ensures
        is_pipe_answer(r, host@, id@, *end),
{
    match end {
        PipeEnd::NotSpawned(e) => {
            let mut text = labelled("failed to spawn pipe-stdin for ", host);
            text.append(": ");
            text.append(e.as_str());
            Response::error_code(ErrorCode::Internal, text.as_str())
        },
        PipeEnd::NotFed(e) => {
            let mut text = labelled("feeding stdin to ", host);
            text.append(": ");
            text.append(e.as_str());
            Response::error_code(ErrorCode::Internal, text.as_str())
        },
        PipeEnd::NotWaited(e) => {
            let mut text = labelled("waiting for ssh to ", host);
            text.append(": ");
            text.append(e.as_str());
            Response::error_code(ErrorCode::Internal, text.as_str())
        },
        PipeEnd::Exited { code, success, status, copy } => {
            let transport = match code {
                Some(c) => *c == 255,
                None => false,
            };
            if transport {
                let mut text = labelled("ssh to ", host);
                text.append(" failed while feeding stdin to process ");
                text.append(id);
                return Response::error_code(ErrorCode::SshUnreachable, text.as_str());
            }
            if *success && !copy.broken_pipe {
                return Response::Written { bytes: copy.bytes as usize };
            }
            let mut text = labelled("process ", id);
            text.append(" on ");
            text.append(host);
            text.append(" did not accept piped stdin (rxd pipe-stdin exited with ");
            text.append(status.as_str());
            text.append(")");
            Response::error_code(ErrorCode::ProcessExited, text.as_str())
        },
    }
}

/// `r` is what piping answers, where it is reported, and how it exits.
pub open spec fn is_pipe_outcome(
    r: (Option<Response>, u8),
    host: Seq<char>,
    id: Seq<char>,
    report: PipeStdinReport,
    end: PipeEnd,
) -> bool {
    match report {
        PipeStdinReport::Written => r.0 matches Some(resp) && is_pipe_answer(resp, host, id, end)
            && r.1 == exit_of(resp),
        PipeStdinReport::Quiet => r.0 is None && r.1 == if pipe_failed(end) {
            1u8
        } else {
            0u8
        },
    }
}

/// A write counts as done only where ssh exited well and the process took all of it,
/// and it then says how many bytes that were. A connection that was lost is told as
/// such, and a process that did not take its input as one that has ended. Where
/// nothing is reported, only a failure of ours or of ssh counts.
pub proof fn lemma_pipe_outcome_is_told(
    r: (Option<Response>, u8),
    host: Seq<char>,
    id: Seq<char>,
    report: PipeStdinReport,
    end: PipeEnd,
)
    requires
        is_pipe_outcome(r, host, id, report, end),
    ensures
        r.0 is Some <==> report is Written,
        report is Written ==> (r.0 matches Some(resp) && {
            &&& resp is Written <==> r.1 == 0
            &&& resp is Written <==> (end matches PipeEnd::Exited { code, success, copy, .. }
                && success && !copy.broken_pipe && code != Some(255i32))
            &&& resp matches Response::Written { bytes } ==> (end matches PipeEnd::Exited {
                copy,
                ..
            } && bytes == copy.bytes)
            &&& (end matches PipeEnd::Exited { code, .. } && code == Some(255i32)) ==> (resp
                matches Response::Error { code, .. } && code == Some(ErrorCode::SshUnreachable))
            &&& (end matches PipeEnd::Exited { code, copy, .. } && code != Some(255i32)
                && copy.broken_pipe) ==> (resp matches Response::Error { code, .. } && code == Some(
                ErrorCode::ProcessExited,
            ))
        }),
        report is Quiet ==> (r.1 == 0 <==> (end matches PipeEnd::Exited { code, .. } && code
            != Some(255i32))),
{
    if let Some(resp) = r.0 {
        crate::cli::exit::lemma_exit_says_whose_fault(resp);
    }
}

/// What piping local stdin to a process answers, where it is reported, and how it
/// exits. Unreported, only a failure of ours or of ssh fails: a short-lived
/// command that did not take all of its input is the ordinary case.
pub fn pipe_local_stdin_to_remote(
    host: &str,
    id: &str,
    report: PipeStdinReport,
    end: &PipeEnd,
) -> (r: (Option<Response>, u8))
    requires
        countable(*end),
    ensures
        is_pipe_outcome(r, host@, id@, report, *end),
{
    match report {
        PipeStdinReport::Written => {
            let answer = pipe_answer(host, id, end);
            let code: u8 = exit_for(&answer);
            (Some(answer), code)
        },
        PipeStdinReport::Quiet => {
            let failed = match end {
                PipeEnd::Exited { code: Some(c), .. } => *c == 255,
                PipeEnd::Exited { code: None, .. } => false,
                _ => true,
            };
            (
                None,
                if failed {
                    1
                } else {
                    0
                },
            )
        },
    }
}

} // verus!
