//! Streaming remote output into the local cache, over connections that fail.

use vstd::prelude::*;

use crate::error::{labelled, IoError, IoKind};
use crate::ssh::{follow_words, remote_command, remote_words, RemoteArgs};
use crate::text::views;

verus! {

/// How long to wait before the first retry, in milliseconds.
pub const FIRST_BACKOFF_MS: u64 = 1000;

/// How long to wait before any retry at most, in milliseconds.
pub const MAX_BACKOFF_MS: u64 = 30000;

/// What the streaming thread does next.
#[derive(Debug, Clone, Copy, PartialEq, Eq, Structural)]
pub enum StreamStep {
    /// Nothing: the process has ended and all its output was streamed.
    Done,
    /// Wait, then follow again; the wait after that one is `backoff_ms`.
    Retry { wait_ms: u64, backoff_ms: u64 },
}

/// The wait that follows a wait: twice as long, up to the maximum.
pub open spec fn next_backoff(backoff_ms: u64) -> u64 {
    if 2 * backoff_ms <= MAX_BACKOFF_MS {
        (2 * backoff_ms) as u64
    } else {
        MAX_BACKOFF_MS
    }
}

/// What follows when following ended well or badly.
pub open spec fn stream_step(followed: bool, backoff_ms: u64) -> StreamStep {
    if followed {
        StreamStep::Done
    } else {
        StreamStep::Retry { wait_ms: backoff_ms, backoff_ms: next_backoff(backoff_ms) }
    }
}

/// Streaming is done only where the process was followed to its end. Before that it is
/// tried again after the wait it is at, and the next wait is twice as long, up to half
/// a minute.
pub proof fn lemma_streaming_is_tried_again(followed: bool, backoff_ms: u64)
    ensures
        stream_step(followed, backoff_ms) is Done <==> followed,
        stream_step(false, backoff_ms) matches StreamStep::Retry { wait_ms, backoff_ms: next }
            && wait_ms == backoff_ms && (backoff_ms <= 15000 ==> next == 2 * backoff_ms) && (
        backoff_ms > 15000 ==> next == 30000),
        FIRST_BACKOFF_MS == 1000,
{
}

/// One step of streaming: what follows when following ended well or badly.
pub fn stream_with_retry(followed: bool, backoff_ms: u64) -> (r: StreamStep)
    ensures
        r == stream_step(followed, backoff_ms),
{
    if followed {
        return StreamStep::Done;
    }
    let next: u64 = if backoff_ms <= MAX_BACKOFF_MS / 2 {
        2 * backoff_ms
    } else {
        MAX_BACKOFF_MS
    };
    StreamStep::Retry { wait_ms: backoff_ms, backoff_ms: next }
}

/// The wait before retry `n`, counted from zero.
pub open spec fn backoff_before(n: nat) -> u64
    decreases n,
{
    if n == 0 {
        FIRST_BACKOFF_MS
    } else {
        next_backoff(backoff_before((n - 1) as nat))
    }
}

/// Retries never come faster than the first one or slower than the maximum, and
/// they never speed up again.
pub proof fn lemma_backoff_is_bounded(n: nat)
    ensures
        FIRST_BACKOFF_MS <= backoff_before(n) <= MAX_BACKOFF_MS,
        backoff_before(n) <= backoff_before(n + 1),
    decreases n,
{
    if n > 0 {
        lemma_backoff_is_bounded((n - 1) as nat);
    }
}

/// The arguments of the `ssh` invocation that follows a stream of a process.
pub fn run_follow(host: &str, control_path: Option<&str>, id: &str, stream: &str) -> (r: Vec<String>)
    ensures
        views(r@) == remote_words(host@, control_path, follow_words(id@, stream@)),
{
    remote_command(host, control_path, &RemoteArgs::follow_stream(id, stream))
}

/// Whether a follower that ended had followed to the end of the process.
pub fn follow_ended(success: bool, status: &str) -> (r: Result<(), IoError>)
    ensures
        success ==> r is Ok,
        !success ==> (r matches Err(e) && e.kind is Other && e.message@ == "SSH exited with "@
            + status@),
{
    if success {
        Ok(())
    } else {
        Err(IoError { kind: IoKind::Other, message: labelled("SSH exited with ", status) })
    }
}

} // verus!
