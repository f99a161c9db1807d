//! Byte streams of managed processes: the tail that a response inlines, feeding
//! a FIFO, and following a file.

use vstd::prelude::*;
use vstd::utf8::decode_utf8;

use crate::encoding::{base64_text, encode_bytes, is_clean_text, Encoding};
use crate::error::{IoError, IoKind};

verus! {

/// Per-stream cap on output inlined into a `run` response. Larger output is
/// tail-truncated and remains fully readable via `read`.
pub const RUN_INLINE_CAP: u64 = 262144;

/// How long a write to a FIFO that takes nothing is kept up, in milliseconds.
pub const WRITE_STDIN_TIMEOUT_MS: u64 = 30000;

// ---------------------------------------------------------------------------
// Tails
// ---------------------------------------------------------------------------

/// A stream file: its size, and its last bytes where it could be opened.
#[derive(Debug)]
pub struct Stream {
    pub size: u64,
    pub tail: Option<Vec<u8>>,
}

impl Stream {
    /// The bytes that were read.
    pub open spec fn bytes(self) -> Seq<u8> {
        match self.tail {
            Some(v) => v@,
            None => Seq::empty(),
        }
    }
}

/// Bytes as they are shown: as text where they are clean text, else in base64.
pub open spec fn tail_text(bytes: Seq<u8>) -> Seq<char> {
    if is_clean_text(bytes) {
        decode_utf8(bytes)
    } else {
        base64_text(bytes)
    }
}

/// How bytes are shown.
pub open spec fn tail_encoding(bytes: Seq<u8>) -> Encoding {
    if is_clean_text(bytes) {
        Encoding::Utf8
    } else {
        Encoding::Base64
    }
}

/// What is shown gives back the bytes.
pub proof fn lemma_shown_bytes_are_carried(bytes: Seq<u8>)
    ensures
        crate::encoding::carried(tail_text(bytes), tail_encoding(bytes)) == Ok::<
            Seq<u8>,
            crate::encoding::Fault,
        >(bytes),
        // Bytes that are text are shown as that text.
        vstd::utf8::valid_utf8(bytes) && !decode_utf8(bytes).contains('\0') ==> tail_encoding(bytes)
            == Encoding::Utf8 && vstd::utf8::encode_utf8(tail_text(bytes)) == bytes,
{
    crate::encoding::lemma_base64_roundtrip(bytes);
    if vstd::utf8::valid_utf8(bytes) {
        vstd::utf8::decode_utf8_encode_utf8(bytes);
    }
}

/// Only the tail of a larger file was read.
pub open spec fn tail_truncated(s: Stream) -> bool {
    s.tail is Some && s.size > RUN_INLINE_CAP
}

/// Where the tail of a file begins.
pub open spec fn tail_from(size: u64) -> u64 {
    if size > RUN_INLINE_CAP {
        (size - RUN_INLINE_CAP) as u64
    } else {
        0
    }
}

/// A tail is the end of the file, as much of it as a response carries: all of a
/// file of up to 256 KiB, the last 256 KiB of a larger one. What is left out is
/// marked.
pub proof fn lemma_tail_is_the_end(s: Stream)
    ensures
        s.size <= 256 * 1024 ==> tail_from(s.size) == 0,
        s.size > 256 * 1024 ==> s.size - tail_from(s.size) == 256 * 1024,
        s.tail is Some ==> (tail_truncated(s) <==> tail_from(s.size) > 0),
        s.tail is None ==> !tail_truncated(s),
{
}

/// Where reading a tail begins, and whether that leaves anything out.
pub fn tail_start(size: u64) -> (r: (u64, bool))
    ensures
        r.0 == tail_from(size),
        r.1 == (tail_from(size) > 0),
        size > RUN_INLINE_CAP ==> r == ((size - RUN_INLINE_CAP) as u64, true),
        size <= RUN_INLINE_CAP ==> r == (0u64, false),
{
    if size > RUN_INLINE_CAP {
        (size - RUN_INLINE_CAP, true)
    } else {
        (0, false)
    }
}

/// The tail of a stream, where errors and results land, as (data, encoding,
/// total size, truncated). What is shown decodes to the bytes that were read.
pub fn read_tail(stream: &Stream) -> (r: (String, Encoding, u64, bool))
    ensures
        r.0@ == tail_text(stream.bytes()),
        r.1 == tail_encoding(stream.bytes()),
        r.2 == stream.size,
        r.3 == tail_truncated(*stream),
        crate::encoding::carried(r.0@, r.1) == Ok::<Seq<u8>, crate::encoding::Fault>(
            stream.bytes(),
        ),
{
    match &stream.tail {
        None => {
            let none: Vec<u8> = Vec::new();
            let (data, encoding) = encode_bytes(&none);
            assert(none@ =~= stream.bytes());
            (data, encoding, stream.size, false)
        },
        Some(bytes) => {
            let (data, encoding) = encode_bytes(bytes);
            let (_, truncated) = tail_start(stream.size);
            (data, encoding, stream.size, truncated)
        },
    }
}

// ---------------------------------------------------------------------------
// Feeding a FIFO without blocking
// ---------------------------------------------------------------------------

/// What a write to the FIFO did.
#[derive(Debug)]
pub enum WriteResult {
    /// It took this many bytes.
    Took(usize),
    /// It failed.
    Failed(IoError),
}

/// What to do next about feeding the FIFO.
#[derive(Debug)]
pub enum FeedStep {
    /// Write what stands from here on.
    Write { from: usize },
    /// Wait 10 ms, then write what stands from here on.
    Pause { from: usize },
    /// Everything was written.
    Done { written: usize },
    /// Give up with this.
    Fail(IoError),
}

/// `e` is an I/O error of this kind with this message.
pub open spec fn is_io(e: IoError, kind: IoKind, message: Seq<char>) -> bool {
    e.kind == kind && e.message@ == message
}

/// Where feeding stands: everything written, or more to write.
pub open spec fn feed_at(from: usize, len: usize) -> FeedStep {
    if from < len {
        FeedStep::Write { from }
    } else {
        FeedStep::Done { written: from }
    }
}

/// How feeding begins.
pub fn feed_begin(len: usize) -> (r: FeedStep)
    ensures
        r == feed_at(0, len),
{
    if len > 0 {
        FeedStep::Write { from: 0 }
    } else {
        FeedStep::Done { written: 0 }
    }
}

/// `r` follows a write of what stands from `from` on.
pub open spec fn feed_follows(
    from: usize,
    len: usize,
    result: WriteResult,
    elapsed_ms: u64,
    r: FeedStep,
) -> bool {
    match result {
        WriteResult::Took(n) => if n == 0 {
            r matches FeedStep::Fail(e) && is_io(
                e,
                IoKind::WriteZero,
                "stdin pipe write returned zero bytes"@,
            )
        } else {
            r == feed_at((from + n) as usize, len)
        },
        WriteResult::Failed(fault) => match fault.kind {
            IoKind::Interrupted => r == (FeedStep::Write { from }),
            IoKind::WouldBlock => if elapsed_ms >= WRITE_STDIN_TIMEOUT_MS {
                r matches FeedStep::Fail(e) && is_io(
                    e,
                    IoKind::TimedOut,
                    "timed out writing to stdin pipe"@,
                )
            } else {
                r == (FeedStep::Pause { from })
            },
            _ => r == FeedStep::Fail(fault),
        },
    }
}

/// Feeding goes on exactly behind what was taken: what was taken is not written
/// again, what was not taken is not skipped, and the count that is reported is the
/// number of bytes. A pipe that is full is waited for, for half a minute; an
/// interruption is no failure; everything else ends it, and is reported.
pub proof fn lemma_feed_goes_on_behind_what_was_taken(
    from: usize,
    len: usize,
    result: WriteResult,
    elapsed_ms: u64,
    r: FeedStep,
)
    requires
        from < len,
        result matches WriteResult::Took(n) ==> n <= len - from,
        feed_follows(from, len, result, elapsed_ms, r),
    ensures
        r matches FeedStep::Write { from: next } ==> next < len && (next == from + (match result {
            WriteResult::Took(n) => n as int,
            WriteResult::Failed(_) => 0,
        })),
        r matches FeedStep::Pause { from: next } ==> next == from && elapsed_ms < 30000 && (result
            matches WriteResult::Failed(e) && e.kind is WouldBlock),
        r matches FeedStep::Done { written } ==> written == len && result == WriteResult::Took(
            (len - from) as usize,
        ),
        (result matches WriteResult::Took(n) && n > 0) ==> r !is Fail,
        (result matches WriteResult::Failed(e) && e.kind is Interrupted) ==> r is Write,
        (result matches WriteResult::Failed(e) && e.kind is WouldBlock && elapsed_ms >= 30000) ==> (
        r matches FeedStep::Fail(e) && e.kind is TimedOut),
        (result matches WriteResult::Failed(e) && e.kind !is WouldBlock && e.kind !is Interrupted)
            ==> r == FeedStep::Fail(result->Failed_0),
        result == WriteResult::Took(0) ==> r is Fail,
{
}

/// One step of feeding `len` bytes, of which `from` have been taken, after a
/// write that began `elapsed_ms` after the first one.
///
/// A full pipe is waited for, up to the timeout; an interrupted write is tried
/// again; a write that takes nothing, and any other failure, ends it.
pub fn write_all_nonblocking(from: usize, len: usize, result: WriteResult, elapsed_ms: u64) -> (r:
    FeedStep)
    requires
        from < len,
        result matches WriteResult::Took(n) ==> n <= len - from,
    ensures
        feed_follows(from, len, result, elapsed_ms, r),
{
    match result {
        WriteResult::Took(n) => {
            if n == 0 {
                return FeedStep::Fail(
                    IoError {
                        kind: IoKind::WriteZero,
                        message: "stdin pipe write returned zero bytes".to_owned(),
                    },
                );
            }
            let at: usize = from + n;
            if at < len {
                FeedStep::Write { from: at }
            } else {
                FeedStep::Done { written: at }
            }
        },
        WriteResult::Failed(fault) => match fault.kind {
            IoKind::Interrupted => FeedStep::Write { from },
            IoKind::WouldBlock => {
                if elapsed_ms >= WRITE_STDIN_TIMEOUT_MS {
                    FeedStep::Fail(
                        IoError {
                            kind: IoKind::TimedOut,
                            message: "timed out writing to stdin pipe".to_owned(),
                        },
                    )
                } else {
                    FeedStep::Pause { from }
                }
            },
            _ => FeedStep::Fail(fault),
        },
    }
}

/// How many bytes a series of writes took.
pub open spec fn taken(counts: Seq<nat>) -> nat
    decreases counts.len(),
{
    if counts.len() == 0 {
        0
    } else {
        taken(counts.drop_last()) + counts.last()
    }
}

/// What a series of writes delivered, each from where the one before it ended.
pub open spec fn delivered(data: Seq<u8>, counts: Seq<nat>) -> Seq<u8>
    decreases counts.len(),
{
    if counts.len() == 0 {
        Seq::empty()
    } else {
        let at = taken(counts.drop_last()) as int;
        delivered(data, counts.drop_last()) + data.subrange(at, at + counts.last())
    }
}

/// Whatever the sizes of the single writes, feeding neither loses nor repeats a
/// byte: what was delivered is the data so far, and feeding is done exactly when
/// that is all of it.
pub proof fn lemma_feed_delivers(data: Seq<u8>, counts: Seq<nat>)
    requires
        taken(counts) <= data.len() <= usize::MAX,
    ensures
        delivered(data, counts) == data.take(taken(counts) as int),
        feed_at(taken(counts) as usize, data.len() as usize) is Done <==> delivered(data, counts)
            == data,
    decreases counts.len(),
{
    if counts.len() > 0 {
        lemma_feed_delivers(data, counts.drop_last());
    }
    assert(delivered(data, counts) =~= data.take(taken(counts) as int));
    if taken(counts) == data.len() {
        assert(data.take(taken(counts) as int) =~= data);
    }
}

// ---------------------------------------------------------------------------
// Piping the SSH channel into a FIFO
// ---------------------------------------------------------------------------

/// What happened to the pipe.
#[derive(Debug)]
pub enum PipeEvent {
    /// A read gave this many bytes; zero is the end of input.
    Read(usize),
    /// A read failed.
    ReadFailed(IoKind),
    /// A write of the bytes from the offset took this many; none where it
    /// failed.
    Wrote(usize),
}

/// What the pipe does next.
#[derive(Debug, Clone, Copy, PartialEq, Eq, Structural)]
pub enum PipeStep {
    /// Read into the buffer.
    Read,
    /// Write the buffer from `from` to `to`.
    Write { from: usize, to: usize },
    /// Close the FIFO; with `release`, also kill its holder so that the command
    /// sees EOF; then exit with this code.
    Close { release: bool, exit: i32 },
}

/// What follows an event of the pipe.
pub open spec fn pipe_next(at: usize, to: usize, event: PipeEvent, no_close: bool) -> PipeStep {
    match event {
        PipeEvent::Read(n) => if n == 0 {
            PipeStep::Close { release: !no_close, exit: 0 }
        } else {
            PipeStep::Write { from: 0, to: n }
        },
        PipeEvent::ReadFailed(kind) => if kind is Interrupted {
            PipeStep::Read
        } else {
            PipeStep::Close { release: !no_close, exit: 0 }
        },
        PipeEvent::Wrote(n) => if n == 0 {
            PipeStep::Close { release: !no_close, exit: 1 }
        } else if at + n < to {
            PipeStep::Write { from: (at + n) as usize, to }
        } else {
            PipeStep::Read
        },
    }
}

/// The pipe passes every byte on, once and in order: it writes all that a read
/// gave before it reads again, each write from where the one before it ended. It
/// closes only at the end of input or when a side fails, it keeps the command's
/// stdin open when asked to and only then, and it fails only when a write does.
pub proof fn lemma_pipe_passes_every_byte_on(
    at: usize,
    to: usize,
    event: PipeEvent,
    no_close: bool,
)
    requires
        at <= to,
        event matches PipeEvent::Wrote(n) ==> n <= to - at,
    ensures
        ({
            let r = pipe_next(at, to, event, no_close);
            &&& event matches PipeEvent::Read(n) ==> n > 0 ==> r == (PipeStep::Write {
                from: 0,
                to: n,
            })
            &&& event matches PipeEvent::Wrote(n) ==> n > 0 && at + n < to ==> (r
                matches PipeStep::Write { from, to: end } && from == at + n && end == to)
            &&& event matches PipeEvent::Wrote(n) ==> n > 0 && at + n == to ==> r == PipeStep::Read
            &&& event == PipeEvent::ReadFailed(IoKind::Interrupted) ==> r == PipeStep::Read
            &&& event == PipeEvent::Read(0) ==> r is Close
            &&& r matches PipeStep::Close { release, exit } ==> release == !no_close && (exit == 0
                <==> event !is Wrote) && (exit == 1 <==> event == PipeEvent::Wrote(0))
        }),
{
}

/// One step of piping data from the SSH channel to a process's FIFO. `at` and
/// `to` are what is left of the last read. An interrupted read is repeated; the
/// end of input, and a failed read, close the FIFO; a failed write also fails.
pub fn pipe_stdin(at: usize, to: usize, event: PipeEvent, no_close: bool) -> (r: PipeStep)
    requires
        at <= to,
        event matches PipeEvent::Wrote(n) ==> n <= to - at,
    ensures
        r == pipe_next(at, to, event, no_close),
{
    match event {
        PipeEvent::Read(n) => if n == 0 {
            PipeStep::Close { release: !no_close, exit: 0 }
        } else {
            PipeStep::Write { from: 0, to: n }
        },
        PipeEvent::ReadFailed(kind) => match kind {
            IoKind::Interrupted => PipeStep::Read,
            _ => PipeStep::Close { release: !no_close, exit: 0 },
        },
        PipeEvent::Wrote(n) => if n == 0 {
            PipeStep::Close { release: !no_close, exit: 1 }
        } else if at + n < to {
            PipeStep::Write { from: at + n, to }
        } else {
            PipeStep::Read
        },
    }
}

// ---------------------------------------------------------------------------
// Following a file
// ---------------------------------------------------------------------------

/// What a follower does next.
#[derive(Debug, Clone, Copy, PartialEq, Eq, Structural)]
pub enum FollowStep {
    /// Write what was read and read again.
    Forward,
    /// Wait 100 ms and read again.
    Pause,
    /// The process has ended: forward what is still there, then stop.
    Drain,
    /// Stop.
    Stop,
}

/// What follows a read from a stream file.
pub open spec fn follow_next(read: Option<usize>, process_ended: bool) -> FollowStep {
    match read {
        None => FollowStep::Stop,
        Some(n) => if n > 0 {
            FollowStep::Forward
        } else if process_ended {
            FollowStep::Drain
        } else {
            FollowStep::Pause
        },
    }
}

/// A follower forwards all that it reads, and it gives up on a file only when the
/// process that writes it has ended and the file is at its end: what is written
/// between the last read and the end is drained.
pub proof fn lemma_follower_misses_nothing(read: Option<usize>, process_ended: bool)
    ensures
        read matches Some(n) ==> n > 0 ==> follow_next(read, process_ended) == FollowStep::Forward,
        read == Some(0usize) && !process_ended ==> follow_next(read, process_ended)
            == FollowStep::Pause,
        read == Some(0usize) && process_ended ==> follow_next(read, process_ended)
            == FollowStep::Drain,
        follow_next(read, process_ended) == FollowStep::Stop <==> read is None,
{
}

/// One step of following a stream file: bytes are forwarded; at the end of the
/// file it goes on while the process may still write; a read error stops it.
pub fn follow(read: Option<usize>, process_ended: bool) -> (r: FollowStep)
    ensures
        r == follow_next(read, process_ended),
{
    match read {
        None => FollowStep::Stop,
        Some(n) => if n > 0 {
            FollowStep::Forward
        } else if process_ended {
            FollowStep::Drain
        } else {
            FollowStep::Pause
        },
    }
}

} // verus!
