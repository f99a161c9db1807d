//! Length-prefixed framing for request bodies of unknown length.
//!
//! A sized transfer (`put LOCAL`) declares its byte count up front and the
//! receiver simply compares. A stdin transfer (`put -`) has no length known in
//! advance, so completeness has to travel *inside* the stream: the sender emits
//! length-prefixed chunks and a terminator; anything that ends without the
//! terminator is a truncated transfer, not a short file.
//!
//! ```text
//! frame      := u32_le len (len > 0) | len bytes
//! terminator := u32_le 0            | u64_le total_bytes
//! ```
//!
//! The trailing total is redundant with the accumulated count and is checked
//! anyway: it turns a mis-framed stream into a typed rejection instead of a
//! plausible-looking file.

use vstd::prelude::*;

use crate::error::{IoError, IoKind};
use crate::number::{decimal, render_u64};

verus! {

/// Payload bytes per frame. Matches the pipe buffer size we stream through.
pub const CHUNK_SIZE: usize = 65536;

/// Largest frame the reader will accept. The writer never exceeds
/// [`CHUNK_SIZE`]; a larger length means a corrupt or mis-framed stream, and
/// failing here beats reading garbage until EOF.
pub const MAX_FRAME: u32 = 8388608;

// ---------------------------------------------------------------------------
// Little-endian numbers
// ---------------------------------------------------------------------------

/// `n` in `width` bytes, the lowest one first.
pub open spec fn little_endian(n: nat, width: nat) -> Seq<u8>
    decreases width,
{
    if width == 0 {
        Seq::empty()
    } else {
        seq![(n % 256) as u8] + little_endian(n / 256, (width - 1) as nat)
    }
}

/// The number that `s` writes, its lowest byte first.
pub open spec fn from_little_endian(s: Seq<u8>) -> nat
    decreases s.len(),
{
    if s.len() == 0 {
        0
    } else {
        s[0] as nat + 256 * from_little_endian(s.skip(1))
    }
}

/// 256 to the power `width`.
pub open spec fn byte_range(width: nat) -> nat
    decreases width,
{
    if width == 0 {
        1
    } else {
        256 * byte_range((width - 1) as nat)
    }
}

/// A number that fits in `width` bytes is read back as it was written.
pub proof fn lemma_little_endian(n: nat, width: nat)
    requires
        n < byte_range(width),
    ensures
        little_endian(n, width).len() == width,
        from_little_endian(little_endian(n, width)) == n,
    decreases width,
{
    if width > 0 {
        let rest = (width - 1) as nat;
        lemma_little_endian(n / 256, rest);
        let s = little_endian(n, width);
        assert(s.skip(1) =~= little_endian(n / 256, rest));
    }
}

proof fn lemma_widths()
    ensures
        byte_range(4) == 4294967296,
        byte_range(8) == 18446744073709551616,
{
    reveal_with_fuel(byte_range, 9);
}

proof fn lemma_little_endian_len(n: nat, width: nat)
    ensures
        little_endian(n, width).len() == width,
    decreases width,
{
    if width > 0 {
        lemma_little_endian_len(n / 256, (width - 1) as nat);
    }
}

proof fn lemma_value_bound(s: Seq<u8>)
    ensures
        from_little_endian(s) < byte_range(s.len()),
    decreases s.len(),
{
    if s.len() > 0 {
        lemma_value_bound(s.skip(1));
    }
}

/// Bytes are written back as they were read.
proof fn lemma_little_endian_of_value(s: Seq<u8>)
    ensures
        little_endian(from_little_endian(s), s.len()) == s,
    decreases s.len(),
{
    if s.len() > 0 {
        lemma_little_endian_of_value(s.skip(1));
        let v = from_little_endian(s);
        assert(v % 256 == s[0] as nat);
        assert(v / 256 == from_little_endian(s.skip(1)));
        assert(little_endian(v, s.len()) =~= s);
    } else {
        assert(s =~= Seq::<u8>::empty());
    }
}

/// Appends `n` in `width` bytes.
fn push_little_endian(out: &mut Vec<u8>, n: u64, width: usize)
    ensures
        final(out)@ == old(out)@ + little_endian(n as nat, width as nat),
{
    let mut left: u64 = n;
    let mut i: usize = 0;
    let ghost target = old(out)@ + little_endian(n as nat, width as nat);
    while i < width
        invariant
            i <= width,
            out@ + little_endian(left as nat, (width - i) as nat) == target,
        decreases width - i,
    {
        let ghost before = out@;
        let low: u8 = (left % 256) as u8;
        out.push(low);
        proof {
            let rest = little_endian((left / 256) as nat, (width - i - 1) as nat);
            assert(out@ + rest =~= before + (seq![low] + rest));
        }
        left = left / 256;
        i += 1;
    }
    assert(out@ + little_endian(left as nat, 0) =~= out@);
}

/// The number that at most eight bytes write.
fn read_little_endian(bytes: &[u8]) -> (r: u64)
    requires
        bytes@.len() <= 8,
    ensures
        r == from_little_endian(bytes@),
{
    let mut i: usize = bytes.len();
    let mut acc: u64 = 0;
    proof {
        assert(bytes@.skip(i as int) =~= Seq::<u8>::empty());
        lemma_widths();
    }
    while i > 0
        invariant
            i <= bytes@.len() <= 8,
            acc == from_little_endian(bytes@.skip(i as int)),
            byte_range(8) == 18446744073709551616,
        decreases i,
    {
        proof {
            assert(bytes@.skip(i - 1).skip(1) =~= bytes@.skip(i as int));
            lemma_value_bound(bytes@.skip(i - 1));
            lemma_range_grows((bytes@.len() - i + 1) as nat, 8);
        }
        acc = acc * 256 + bytes[i - 1] as u64;
        i -= 1;
    }
    assert(bytes@.skip(0) =~= bytes@);
    acc
}

proof fn lemma_range_grows(a: nat, b: nat)
    requires
        a <= b,
    ensures
        0 < byte_range(a) <= byte_range(b),
    decreases b,
{
    if a < b {
        lemma_range_grows(a, (b - 1) as nat);
    } else if a > 0 {
        lemma_range_grows((a - 1) as nat, (b - 1) as nat);
    }
}

// ---------------------------------------------------------------------------
// Writing
// ---------------------------------------------------------------------------

/// One frame: the length of the chunk, then the chunk.
pub open spec fn frame(chunk: Seq<u8>) -> Seq<u8> {
    little_endian(chunk.len(), 4) + chunk
}

/// The end of a stream of `total` payload bytes.
pub open spec fn terminator(total: nat) -> Seq<u8> {
    little_endian(0, 4) + little_endian(total, 8)
}

/// The chunks one after the other.
pub open spec fn payload_of(chunks: Seq<Seq<u8>>) -> Seq<u8>
    decreases chunks.len(),
{
    if chunks.len() == 0 {
        Seq::empty()
    } else {
        chunks[0] + payload_of(chunks.skip(1))
    }
}

/// The frames of the chunks, one after the other.
pub open spec fn frames_of(chunks: Seq<Seq<u8>>) -> Seq<u8>
    decreases chunks.len(),
{
    if chunks.len() == 0 {
        Seq::empty()
    } else {
        frame(chunks[0]) + frames_of(chunks.skip(1))
    }
}

/// A whole stream: every chunk in its frame, then the terminator.
pub open spec fn wire_of(chunks: Seq<Seq<u8>>) -> Seq<u8> {
    frames_of(chunks) + terminator(payload_of(chunks).len())
}

/// Chunks that a stream can carry: none empty, none over the frame limit.
pub open spec fn carriable(chunks: Seq<Seq<u8>>) -> bool {
    forall|i: int| 0 <= i < chunks.len() ==> 0 < (#[trigger] chunks[i]).len() <= MAX_FRAME
}

/// `s` in chunks of `n`, the last one possibly shorter.
pub open spec fn chunked(s: Seq<u8>, n: nat) -> Seq<Seq<u8>>
    decreases s.len(),
{
    if s.len() == 0 || n == 0 {
        Seq::empty()
    } else if s.len() <= n {
        seq![s]
    } else {
        seq![s.take(n as int)] + chunked(s.skip(n as int), n)
    }
}

/// Appends `bytes`.
pub fn push_all(dst: &mut Vec<u8>, bytes: &[u8])
    ensures
        final(dst)@ == old(dst)@ + bytes@,
{
    let ghost before = dst@;
    let mut i: usize = 0;
    while i < bytes.len()
        invariant
            i <= bytes@.len(),
            dst@ == before + bytes@.take(i as int),
        decreases bytes@.len() - i,
    {
        dst.push(bytes[i]);
        i += 1;
        assert(dst@ =~= before + bytes@.take(i as int));
    }
    assert(bytes@.take(i as int) =~= bytes@);
}

/// Appends one frame.
fn push_frame(dst: &mut Vec<u8>, chunk: &[u8])
    requires
        chunk@.len() <= u32::MAX,
    ensures
        final(dst)@ == old(dst)@ + frame(chunk@),
{
    push_little_endian(dst, chunk.len() as u64, 4);
    push_all(dst, chunk);
    assert(dst@ =~= old(dst)@ + frame(chunk@));
}

/// Appends the terminator of a stream of `total` payload bytes.
fn push_terminator(dst: &mut Vec<u8>, total: u64)
    ensures
        final(dst)@ == old(dst)@ + terminator(total as nat),
{
    push_little_endian(dst, 0, 4);
    push_little_endian(dst, total, 8);
    assert(dst@ =~= old(dst)@ + terminator(total as nat));
}

/// What a sender does next.
#[derive(Debug)]
pub enum SendStep {
    /// Read again.
    Read,
    /// Write these bytes, then read on.
    Write(Vec<u8>),
    /// Write these bytes, the last ones, and flush.
    Finish(Vec<u8>),
    /// Write nothing more, and report this.
    Fail(IoError),
}

/// What a sender does next, its bytes as a sequence.
pub enum SendModel {
    Read,
    Write(Seq<u8>),
    Finish(Seq<u8>),
    Fail(IoError),
}

impl SendStep {
    /// This step, its bytes as a sequence.
    pub open spec fn model(self) -> SendModel {
        match self {
            SendStep::Read => SendModel::Read,
            SendStep::Write(bytes) => SendModel::Write(bytes@),
            SendStep::Finish(bytes) => SendModel::Finish(bytes@),
            SendStep::Fail(e) => SendModel::Fail(e),
        }
    }
}

/// What a read gave: its bytes, none at the end of the source, or why there are
/// none.
pub open spec fn reading(event: Result<&[u8], IoError>) -> Result<Seq<u8>, IoError> {
    match event {
        Ok(chunk) => Ok(chunk@),
        Err(e) => Err(e),
    }
}

/// What follows a read, after `total` payload bytes. Only the end of the source
/// leads to the terminator; a read that failed never does.
pub open spec fn send_next(total: nat, event: Result<Seq<u8>, IoError>) -> SendModel {
    match event {
        Ok(chunk) => if chunk.len() > 0 {
            SendModel::Write(frame(chunk))
        } else {
            SendModel::Finish(terminator(total))
        },
        Err(e) => if e.kind is Interrupted {
            SendModel::Read
        } else {
            SendModel::Fail(e)
        },
    }
}

/// How many payload bytes were sent once a read was dealt with.
pub open spec fn sent_total(total: nat, event: Result<Seq<u8>, IoError>) -> nat {
    match event {
        Ok(chunk) => total + chunk.len(),
        Err(_) => total,
    }
}

/// One step of streaming a source as length-prefixed frames: what follows a read.
/// Each read becomes a frame, however short it is; one that was interrupted is
/// done again; one that failed leaves the stream without its terminator, so that
/// the receiver sees that it was cut.
pub fn send_framed(total: &mut u64, event: Result<&[u8], IoError>) -> (r: SendStep)
    requires
        event matches Ok(chunk) ==> chunk@.len() <= CHUNK_SIZE && *old(total) + chunk@.len()
            <= u64::MAX,
    ensures
        r.model() == send_next(*old(total) as nat, reading(event)),
        *final(total) == sent_total(*old(total) as nat, reading(event)),
{
    match event {
        Ok(chunk) => {
            let mut bytes: Vec<u8> = Vec::new();
            let n: usize = chunk.len();
            if n == 0 {
                push_terminator(&mut bytes, *total);
                assert(bytes@ =~= terminator(*total as nat));
                return SendStep::Finish(bytes);
            }
            push_frame(&mut bytes, chunk);
            assert(bytes@ =~= frame(chunk@));
            *total = *total + n as u64;
            SendStep::Write(bytes)
        },
        Err(e) => match e.kind {
            IoKind::Interrupted => SendStep::Read,
            _ => SendStep::Fail(e),
        },
    }
}

/// Writes `src`, which is all there, to `dst` as length-prefixed frames, ending
/// with the terminator. Returns the payload byte count (excluding framing
/// overhead).
pub fn write_framed(src: &[u8], dst: &mut Vec<u8>) -> (total: u64)
    ensures
        final(dst)@ == old(dst)@ + wire_of(chunked(src@, CHUNK_SIZE as nat)),
        total == src@.len(),
{
    let n: usize = src.len();
    let mut at: usize = 0;
    let mut total: u64 = 0;
    let ghost start = dst@;
    let ghost whole = frames_of(chunked(src@, CHUNK_SIZE as nat));
    proof {
        assert(src@.skip(0) =~= src@);
    }
    while at < n
        invariant
            at <= n == src@.len(),
            total == at,
            dst@ + frames_of(chunked(src@.skip(at as int), CHUNK_SIZE as nat)) == start + whole,
        decreases n - at,
    {
        let end: usize = if n - at <= CHUNK_SIZE {
            n
        } else {
            at + CHUNK_SIZE
        };
        let chunk = vstd::slice::slice_subrange(src, at, end);
        let ghost rest = src@.skip(at as int);
        let ghost before = dst@;
        let ghost parts = chunked(rest, CHUNK_SIZE as nat);
        let ghost later = chunked(src@.skip(end as int), CHUNK_SIZE as nat);
        if let SendStep::Write(bytes) = send_framed(&mut total, Ok(chunk)) {
            push_all(dst, &bytes);
        }
        proof {
            assert(parts[0] =~= chunk@);
            if rest.len() > CHUNK_SIZE {
                assert(rest.skip(CHUNK_SIZE as int) =~= src@.skip(end as int));
            }
            assert(parts.skip(1) =~= later);
            assert(dst@ + frames_of(later) =~= before + frames_of(parts));
        }
        at = end;
    }
    proof {
        assert(src@.skip(at as int) =~= Seq::<u8>::empty());
        assert(dst@ + frames_of(chunked(src@.skip(at as int), CHUNK_SIZE as nat)) =~= dst@);
        lemma_chunked_payload(src@, CHUNK_SIZE as nat);
    }
    let none = vstd::slice::slice_subrange(src, n, n);
    if let SendStep::Finish(bytes) = send_framed(&mut total, Ok(none)) {
        push_all(dst, &bytes);
    }
    assert(dst@ =~= start + wire_of(chunked(src@, CHUNK_SIZE as nat)));
    total
}

/// Cutting into chunks loses nothing, and every chunk can be carried.
pub proof fn lemma_chunked_payload(s: Seq<u8>, n: nat)
    requires
        0 < n <= MAX_FRAME,
    ensures
        payload_of(chunked(s, n)) == s,
        carriable(chunked(s, n)),
    decreases s.len(),
{
    let c = chunked(s, n);
    if s.len() == 0 {
        assert(s =~= Seq::<u8>::empty());
    } else if s.len() <= n {
        assert(c.skip(1) =~= Seq::<Seq<u8>>::empty());
        assert(payload_of(c.skip(1)) =~= Seq::<u8>::empty());
        assert(payload_of(c) =~= s);
    } else {
        lemma_chunked_payload(s.skip(n as int), n);
        let later = chunked(s.skip(n as int), n);
        assert(c.skip(1) =~= later);
        assert(payload_of(c) =~= s);
        assert forall|i: int| 0 <= i < c.len() implies 0 < (
        #[trigger] c[i]).len() <= MAX_FRAME by {
            if i > 0 {
                assert(c[i] == later[i - 1]);
            }
        }
    }
}


// ---------------------------------------------------------------------------
// Reading
// ---------------------------------------------------------------------------

/// Why a framed stream cannot be read to its end.
#[derive(Debug, Clone, Copy, PartialEq, Eq, Structural)]
pub enum FrameError {
    /// The stream ended where the framing promised more bytes.
    UnexpectedEof,
    /// The trailer declares another count than was read.
    Mismatch { declared: u64, read: u64 },
    /// A frame longer than [`MAX_FRAME`].
    TooLong(u32),
}

impl FrameError {
    /// The message for this error.
    pub open spec fn text(self) -> Seq<char> {
        match self {
            FrameError::UnexpectedEof => "failed to fill whole buffer"@,
            FrameError::Mismatch { declared, read } => "framing mismatch: trailer declares "@
                + decimal(declared as nat) + " bytes, read "@ + decimal(read as nat),
            FrameError::TooLong(len) => "frame length "@ + decimal(len as nat) + " exceeds "@
                + decimal(MAX_FRAME as nat),
        }
    }

    /// The message for this error.
    pub fn message(self) -> (r: String)
        ensures
            r@ == self.text(),
    {
        match self {
            FrameError::UnexpectedEof => "failed to fill whole buffer".to_owned(),
            FrameError::Mismatch { declared, read } => {
                let mut m = "framing mismatch: trailer declares ".to_owned();
                m.append(render_u64(declared).as_str());
                m.append(" bytes, read ");
                m.append(render_u64(read).as_str());
                m
            },
            FrameError::TooLong(len) => {
                let mut m = "frame length ".to_owned();
                m.append(render_u64(len as u64).as_str());
                m.append(" exceeds ");
                m.append(render_u64(MAX_FRAME as u64).as_str());
                m
            },
        }
    }
}

/// Where a reader stands in its stream.
pub struct ReaderState {
    /// Payload bytes left in the frame currently being read.
    pub remaining: nat,
    /// Payload bytes seen so far.
    pub total: nat,
    /// A zero length was read; the declared total comes next.
    pub trailer: bool,
    /// The terminator arrived and its total matched.
    pub complete: bool,
}

/// The state before the first byte.
pub open spec fn fresh() -> ReaderState {
    ReaderState { remaining: 0, total: 0, trailer: false, complete: false }
}

/// How many bytes the reader has to be handed next, all of them at once, when
/// its consumer takes at most `room` payload bytes.
pub open spec fn wanted_by(st: ReaderState, room: nat) -> nat {
    if st.complete || room == 0 {
        0
    } else if st.trailer {
        8
    } else if st.remaining == 0 {
        4
    } else if room < st.remaining {
        room
    } else {
        st.remaining
    }
}

/// What the wanted bytes do to the reader.
pub open spec fn step(st: ReaderState, bytes: Seq<u8>) -> Result<ReaderState, FrameError> {
    if st.complete || bytes.len() == 0 {
        Ok(st)
    } else if st.trailer {
        let declared = from_little_endian(bytes);
        if declared == st.total {
            Ok(ReaderState { complete: true, trailer: false, ..st })
        } else {
            Err(FrameError::Mismatch { declared: declared as u64, read: st.total as u64 })
        }
    } else if st.remaining == 0 {
        let len = from_little_endian(bytes);
        if len == 0 {
            Ok(ReaderState { trailer: true, ..st })
        } else if len > MAX_FRAME {
            Err(FrameError::TooLong(len as u32))
        } else {
            Ok(ReaderState { remaining: len, ..st })
        }
    } else {
        Ok(
            ReaderState {
                remaining: (st.remaining - bytes.len()) as nat,
                total: st.total + bytes.len(),
                ..st
            },
        )
    }
}

/// What a failure leaves of a reader: a trailer is given up, so that another
/// attempt begins with a length; a frame is not, so that it goes on in the frame.
pub open spec fn unread(st: ReaderState) -> ReaderState {
    ReaderState { trailer: false, ..st }
}

/// Reads the payload out of a framed stream, tracking whether the terminator
/// arrived. It is handed the stream piece by piece, so the receiver stays
/// constant-memory.
///
/// Ask [`FramedReader::is_complete`] before installing anything: a stream cut
/// mid-transfer leaves the reader wanting bytes that never come, and the caller
/// says so with [`FramedReader::failed`].
pub struct FramedReader {
    remaining: usize,
    total: u64,
    trailer: bool,
    complete: bool,
}

impl View for FramedReader {
    type V = ReaderState;

    closed spec fn view(&self) -> ReaderState {
        ReaderState {
            remaining: self.remaining as nat,
            total: self.total as nat,
            trailer: self.trailer,
            complete: self.complete,
        }
    }
}

impl FramedReader {
    /// A reader at the start of its stream.
    pub fn new() -> (r: Self)
        ensures
            r@ == fresh(),
    {
        FramedReader { remaining: 0, total: 0, trailer: false, complete: false }
    }

    /// True once the terminator arrived and its declared total matched what was
    /// actually read. False means the stream ended early: reject the transfer.
    pub fn is_complete(&self) -> (r: bool)
        ensures
            r == self@.complete,
    {
        self.complete
    }

    /// Payload bytes read so far.
    pub fn total(&self) -> (r: u64)
        ensures
            r == self@.total,
    {
        self.total
    }

    /// How many bytes to read next; zero when nothing more is wanted.
    pub fn wanted(&self, room: usize) -> (r: usize)
        ensures
            r == wanted_by(self@, room as nat),
    {
        if self.complete || room == 0 {
            0
        } else if self.trailer {
            8
        } else if self.remaining == 0 {
            4
        } else if room < self.remaining {
            room
        } else {
            self.remaining
        }
    }

    /// A four-byte length.
    fn read_u32(bytes: &[u8]) -> (r: u32)
        requires
            bytes@.len() == 4,
        ensures
            r == from_little_endian(bytes@),
    {
        proof {
            lemma_value_bound(bytes@);
            lemma_widths();
        }
        read_little_endian(bytes) as u32
    }

    /// An eight-byte total.
    fn read_u64(bytes: &[u8]) -> (r: u64)
        requires
            bytes@.len() == 8,
        ensures
            r == from_little_endian(bytes@),
    {
        read_little_endian(bytes)
    }

    /// Takes the wanted bytes. Returns how many of them are payload: all of
    /// them or none.
    pub fn accept(&mut self, bytes: &[u8]) -> (r: Result<usize, FrameError>)
        requires
            exists|room: nat| bytes@.len() == wanted_by(old(self)@, room),
            old(self)@.total + bytes@.len() <= u64::MAX,
        ensures
            match step(old(self)@, bytes@) {
                Ok(st) => r is Ok && final(self)@ == st,
                Err(e) => r == Err::<usize, FrameError>(e) && final(self)@ == unread(old(self)@),
            },
            r matches Ok(n) ==> n == final(self)@.total - old(self)@.total,
    {
        if self.complete || bytes.len() == 0 {
            return Ok(0);
        }
        if self.trailer {
            let declared: u64 = Self::read_u64(bytes);
            self.trailer = false;
            if declared != self.total {
                return Err(FrameError::Mismatch { declared, read: self.total });
            }
            self.complete = true;
            return Ok(0);
        }
        if self.remaining == 0 {
            let len: u32 = Self::read_u32(bytes);
            if len == 0 {
                self.trailer = true;
                return Ok(0);
            }
            if len > MAX_FRAME {
                return Err(FrameError::TooLong(len));
            }
            self.remaining = len as usize;
            return Ok(0);
        }
        let n: usize = bytes.len();
        self.remaining = self.remaining - n;
        self.total = self.total + n as u64;
        Ok(n)
    }

    /// Takes note that the wanted bytes could not be read.
    pub fn failed(&mut self)
        ensures
            final(self)@ == unread(old(self)@),
    {
        self.trailer = false;
    }

    /// Reads a whole stream out of `wire`, `room` payload bytes at a time.
    pub fn read_to_end(&mut self, wire: &[u8], room: usize) -> (r: Result<Vec<u8>, FrameError>)
        requires
            old(self)@ == fresh(),
            room > 0,
        ensures
            match unframed(wire@, 0).end {
                End::Complete { used } => r matches Ok(v) && v@ == unframed(wire@, 0).payload
                    && final(self)@.complete && final(self)@.total == v@.len(),
                End::Truncated => r == Err::<Vec<u8>, FrameError>(FrameError::UnexpectedEof)
                    && !final(self)@.complete && !final(self)@.trailer,
                End::Bad(e) => r == Err::<Vec<u8>, FrameError>(e) && !final(self)@.complete
                    && !final(self)@.trailer,
            },
    {
        let n: usize = wire.len();
        let mut at: usize = 0;
        let mut out: Vec<u8> = Vec::new();
        let ghost whole = unframed(wire@, 0);
        proof {
            assert(wire@.skip(0) =~= wire@);
            assert(out@ + whole.payload =~= whole.payload);
            lemma_resumed_ends(wire@, self@, room as nat);
        }
        loop
            invariant
                at <= n == wire@.len(),
                room > 0,
                self@.total == out@.len() <= at,
                self@.trailer ==> self@.remaining == 0,
                !self@.complete,
                whole == unframed(wire@, 0),
                whole.end == shifted(resumed(wire@.skip(at as int), self@).end, at as nat),
                whole.end !is Truncated ==> whole.payload == out@ + resumed(
                    wire@.skip(at as int),
                    self@,
                ).payload,
            decreases n - at,
        {
            let want: usize = self.wanted(room);
            let ghost rest = wire@.skip(at as int);
            let ghost st = self@;
            proof {
                lemma_resumed_ends(rest, st, room as nat);
            }
            if n - at < want {
                self.failed();
                return Err(FrameError::UnexpectedEof);
            }
            let bytes = vstd::slice::slice_subrange(wire, at, at + want);
            proof {
                assert(bytes@ =~= rest.take(want as int));
                assert(rest.skip(want as int) =~= wire@.skip(at + want));
                lemma_resume(rest, st, want as nat);
            }
            let ghost before = out@;
            match self.accept(bytes) {
                Err(e) => {
                    return Err(e);
                },
                Ok(k) => {
                    if k > 0 {
                        push_all(&mut out, bytes);
                    }
                    proof {
                        if k > 0 {
                            let tail = resumed(rest.skip(want as int), self@).payload;
                            assert(before + (bytes@ + tail) =~= out@ + tail);
                        }
                    }
                    at = at + want;
                    if self.complete {
                        proof {
                            lemma_resumed_ends(wire@.skip(at as int), self@, room as nat);
                            assert(out@ + Seq::<u8>::empty() =~= out@);
                        }
                        return Ok(out);
                    }
                },
            }
        }
    }
}

// ---------------------------------------------------------------------------
// What a byte stream means
// ---------------------------------------------------------------------------

/// How a stream ends.
pub enum End {
    /// With its terminator, after `used` bytes of the wire.
    Complete { used: nat },
    /// Before its terminator.
    Truncated,
    /// With bytes that no sender writes.
    Bad(FrameError),
}

/// A stream read as frames.
pub struct Unframed {
    /// The payload of the whole frames.
    pub payload: Seq<u8>,
    /// How the stream ends.
    pub end: End,
}

/// `end` seen from `n` bytes earlier in the wire.
pub open spec fn shifted(end: End, n: nat) -> End {
    match end {
        End::Complete { used } => End::Complete { used: used + n },
        _ => end,
    }
}

/// `wire` read as frames, after `total` payload bytes.
pub open spec fn unframed(wire: Seq<u8>, total: nat) -> Unframed
    decreases wire.len(),
{
    let none = Seq::<u8>::empty();
    let len = from_little_endian(wire.take(4));
    if wire.len() < 4 {
        Unframed { payload: none, end: End::Truncated }
    } else if len == 0 {
        let declared = from_little_endian(wire.subrange(4, 12));
        if wire.len() < 12 {
            Unframed { payload: none, end: End::Truncated }
        } else if declared == total {
            Unframed { payload: none, end: End::Complete { used: 12 } }
        } else {
            Unframed {
                payload: none,
                end: End::Bad(
                    FrameError::Mismatch { declared: declared as u64, read: total as u64 },
                ),
            }
        }
    } else if len > MAX_FRAME {
        Unframed { payload: none, end: End::Bad(FrameError::TooLong(len as u32)) }
    } else if wire.len() < 4 + len {
        Unframed { payload: none, end: End::Truncated }
    } else {
        let rest = unframed(wire.skip((4 + len) as int), total + len);
        Unframed {
            payload: wire.subrange(4, (4 + len) as int) + rest.payload,
            end: shifted(rest.end, 4 + len),
        }
    }
}

/// What is left of a stream for a reader in state `st`.
#[verifier::opaque]
spec fn resumed(wire: Seq<u8>, st: ReaderState) -> Unframed {
    let none = Seq::<u8>::empty();
    if st.complete {
        Unframed { payload: none, end: End::Complete { used: 0 } }
    } else if st.trailer {
        let declared = from_little_endian(wire.take(8));
        if wire.len() < 8 {
            Unframed { payload: none, end: End::Truncated }
        } else if declared == st.total {
            Unframed { payload: none, end: End::Complete { used: 8 } }
        } else {
            Unframed {
                payload: none,
                end: End::Bad(
                    FrameError::Mismatch { declared: declared as u64, read: st.total as u64 },
                ),
            }
        }
    } else if st.remaining == 0 {
        unframed(wire, st.total)
    } else if wire.len() < st.remaining {
        Unframed { payload: none, end: End::Truncated }
    } else {
        let rest = unframed(wire.skip(st.remaining as int), st.total + st.remaining);
        Unframed {
            payload: wire.take(st.remaining as int) + rest.payload,
            end: shifted(rest.end, st.remaining),
        }
    }
}

/// The ends of reading: nothing read yet, everything read, too little left.
proof fn lemma_resumed_ends(wire: Seq<u8>, st: ReaderState, room: nat)
    requires
        room > 0,
        st.trailer ==> st.remaining == 0,
    ensures
        st == fresh() ==> resumed(wire, st) == unframed(wire, 0),
        st.complete ==> resumed(wire, st).end == (End::Complete { used: 0 }) && resumed(
            wire,
            st,
        ).payload == Seq::<u8>::empty(),
        wire.len() < wanted_by(st, room) ==> resumed(wire, st).end is Truncated,
{
    reveal(resumed);
}

/// One step of the reader leaves the meaning of the stream as it is.
proof fn lemma_resume(wire: Seq<u8>, st: ReaderState, want: nat)
    requires
        !st.complete,
        st.trailer ==> st.remaining == 0,
        0 < want <= wire.len(),
        st.trailer ==> want == 8,
        !st.trailer && st.remaining == 0 ==> want == 4,
        !st.trailer && st.remaining > 0 ==> want <= st.remaining,
    ensures
        match step(st, wire.take(want as int)) {
            Err(e) => resumed(wire, st).end == End::Bad(e),
            Ok(next) => {
                let rest = resumed(wire.skip(want as int), next);
                &&& resumed(wire, st).end == shifted(rest.end, want)
                &&& resumed(wire, st).end !is Truncated ==> resumed(wire, st).payload == (
                if st.remaining > 0 {
                    wire.take(want as int)
                } else {
                    Seq::empty()
                }) + rest.payload
            },
        },
{
    reveal(resumed);
    let head = wire.take(want as int);
    let tail = wire.skip(want as int);
    if st.trailer {
        assert(head =~= wire.take(8));
        assert(Seq::<u8>::empty() + Seq::<u8>::empty() =~= Seq::<u8>::empty());
    } else if st.remaining == 0 {
        let len = from_little_endian(head);
        assert(head =~= wire.take(4));
        if len == 0 {
            if wire.len() >= 12 {
                assert(tail.take(8) =~= wire.subrange(4, 12));
            }
            assert(Seq::<u8>::empty() + Seq::<u8>::empty() =~= Seq::<u8>::empty());
        } else if len <= MAX_FRAME && wire.len() >= 4 + len {
            assert(tail.take(len as int) =~= wire.subrange(4, (4 + len) as int));
            assert(tail.skip(len as int) =~= wire.skip((4 + len) as int));
            let more = unframed(tail.skip(len as int), st.total + len).payload;
            assert(Seq::<u8>::empty() + (tail.take(len as int) + more) =~= wire.subrange(
                4,
                (4 + len) as int,
            ) + more);
        }
    } else {
        let left = (st.remaining - want) as nat;
        if wire.len() >= st.remaining {
            assert(tail.skip(left as int) =~= wire.skip(st.remaining as int));
            let more = unframed(wire.skip(st.remaining as int), st.total + st.remaining);
            if left == 0 {
                assert(tail =~= wire.skip(st.remaining as int));
                assert(wire.take(st.remaining as int) + more.payload =~= head + more.payload);
            } else {
                assert(wire.take(st.remaining as int) + more.payload =~= head + (tail.take(
                    left as int,
                ) + more.payload));
            }
        }
    }
}


// ---------------------------------------------------------------------------
// What the framing promises
// ---------------------------------------------------------------------------

/// A frame at the front of the wire is read as its chunk.
proof fn lemma_unframed_frame(chunk: Seq<u8>, rest: Seq<u8>, total: nat)
    requires
        0 < chunk.len() <= MAX_FRAME,
    ensures
        ({
            let u = unframed(frame(chunk) + rest, total);
            let more = unframed(rest, total + chunk.len());
            &&& u.payload == chunk + more.payload
            &&& u.end == shifted(more.end, frame(chunk).len())
        }),
{
    let wire = frame(chunk) + rest;
    let n = chunk.len();
    lemma_widths();
    lemma_little_endian(n, 4);
    assert(wire.take(4) =~= little_endian(n, 4));
    assert(wire.subrange(4, (4 + n) as int) =~= chunk);
    assert(wire.skip((4 + n) as int) =~= rest);
}

/// The terminator ends the stream where its total is right.
proof fn lemma_unframed_terminator(total: nat, tail: Seq<u8>)
    requires
        total <= u64::MAX,
    ensures
        unframed(terminator(total) + tail, total) == (Unframed {
            payload: Seq::<u8>::empty(),
            end: End::Complete { used: 12 },
        }),
        terminator(total).len() == 12,
{
    let wire = terminator(total) + tail;
    lemma_widths();
    lemma_little_endian(0, 4);
    lemma_little_endian(total, 8);
    assert(wire.take(4) =~= little_endian(0, 4));
    assert(wire.subrange(4, 12) =~= little_endian(total, 8));
}

/// A stream begins with the frame of its first chunk.
proof fn lemma_first_frame(chunks: Seq<Seq<u8>>, end: Seq<u8>, tail: Seq<u8>)
    requires
        chunks.len() > 0,
    ensures
        frames_of(chunks) + end + tail == frame(chunks[0]) + (frames_of(chunks.skip(1)) + end
            + tail),
        payload_of(chunks) == chunks[0] + payload_of(chunks.skip(1)),
        frames_of(chunks).len() == frame(chunks[0]).len() + frames_of(chunks.skip(1)).len(),
{
    assert(frames_of(chunks) + end + tail =~= frame(chunks[0]) + (frames_of(chunks.skip(1)) + end
        + tail));
}

#[verifier::spinoff_prover]
proof fn lemma_unframed_stream(chunks: Seq<Seq<u8>>, total: nat, tail: Seq<u8>)
    requires
        carriable(chunks),
        total + payload_of(chunks).len() <= u64::MAX,
    ensures
        ({
            let end = terminator(total + payload_of(chunks).len());
            unframed(frames_of(chunks) + end + tail, total) == Unframed {
                payload: payload_of(chunks),
                end: End::Complete { used: frames_of(chunks).len() + 12 },
            }
        }),
    decreases chunks.len(),
{
    let whole = payload_of(chunks).len();
    let end = terminator(total + whole);
    if chunks.len() == 0 {
        lemma_unframed_terminator(total, tail);
        assert(frames_of(chunks) + end + tail =~= end + tail);
    } else {
        let later = chunks.skip(1);
        assert(carriable(later)) by {
            assert forall|i: int| 0 <= i < later.len() implies 0 < (
            #[trigger] later[i]).len() <= MAX_FRAME by {
                assert(later[i] == chunks[i + 1]);
            }
        }
        let n = chunks[0].len();
        lemma_first_frame(chunks, end, tail);
        assert(whole == n + payload_of(later).len());
        lemma_unframed_stream(later, total + n, tail);
        lemma_unframed_frame(chunks[0], frames_of(later) + end + tail, total);
    }
}

/// A stream is read back as it was written, in whatever chunks it was written,
/// and the reader stops exactly behind it.
pub proof fn lemma_wire_roundtrip(chunks: Seq<Seq<u8>>, tail: Seq<u8>)
    requires
        carriable(chunks),
        payload_of(chunks).len() <= u64::MAX,
    ensures
        unframed(wire_of(chunks) + tail, 0) == (Unframed {
            payload: payload_of(chunks),
            end: End::Complete { used: wire_of(chunks).len() },
        }),
{
    lemma_unframed_stream(chunks, 0, tail);
    lemma_unframed_terminator(payload_of(chunks).len(), tail);
}

/// What [`write_framed`] writes, [`FramedReader::read_to_end`] reads.
pub proof fn lemma_write_then_read(payload: Seq<u8>)
    requires
        payload.len() <= u64::MAX,
    ensures
        ({
            let wire = wire_of(chunked(payload, CHUNK_SIZE as nat));
            unframed(wire, 0) == Unframed { payload, end: End::Complete { used: wire.len() } }
        }),
{
    let chunks = chunked(payload, CHUNK_SIZE as nat);
    lemma_chunked_payload(payload, CHUNK_SIZE as nat);
    lemma_wire_roundtrip(chunks, Seq::empty());
    assert(wire_of(chunks) + Seq::<u8>::empty() =~= wire_of(chunks));
}

proof fn lemma_cut_stream(chunks: Seq<Seq<u8>>, total: nat, cut: nat)
    requires
        carriable(chunks),
        cut < frames_of(chunks).len() + 12,
    ensures
        unframed(
            (frames_of(chunks) + terminator(total + payload_of(chunks).len())).take(cut as int),
            total,
        ).end is Truncated,
    decreases chunks.len(),
{
    let whole = payload_of(chunks).len();
    let end = terminator(total + whole);
    let wire = frames_of(chunks) + end;
    let short = wire.take(cut as int);
    lemma_widths();
    lemma_little_endian(0, 4);
    lemma_little_endian_len(total + whole, 8);
    if chunks.len() == 0 {
        if cut >= 4 {
            assert(short.take(4) =~= little_endian(0, 4));
        }
    } else {
        let n = chunks[0].len();
        let later = chunks.skip(1);
        lemma_little_endian(n, 4);
        if cut >= 4 {
            assert(short.take(4) =~= little_endian(n, 4));
        }
        if cut >= 4 + n {
            assert(carriable(later)) by {
                assert forall|i: int| 0 <= i < later.len() implies 0 < (
                #[trigger] later[i]).len() <= MAX_FRAME by {
                    assert(later[i] == chunks[i + 1]);
                }
            }
            assert(whole == n + payload_of(later).len());
            lemma_cut_stream(later, total + n, (cut - 4 - n) as nat);
            let rest = (frames_of(later) + end).take(cut - 4 - n);
            assert(short =~= frame(chunks[0]) + rest);
            lemma_unframed_frame(chunks[0], rest, total);
        }
    }
}

/// A stream cut anywhere before its last byte is never a clean end.
pub proof fn lemma_truncation_is_seen(chunks: Seq<Seq<u8>>, cut: nat)
    requires
        carriable(chunks),
        cut < wire_of(chunks).len(),
    ensures
        unframed(wire_of(chunks).take(cut as int), 0).end is Truncated,
{
    lemma_little_endian_len(0, 4);
    lemma_little_endian_len(payload_of(chunks).len(), 8);
    lemma_cut_stream(chunks, 0, cut);
}

/// How far a sender came.
pub enum SendEnd {
    /// It goes on reading.
    Open,
    /// It wrote the terminator, after this many payload bytes.
    Finished { total: nat },
    /// A read failed.
    Failed(IoError),
}

/// What a sender wrote, and how far it came.
pub struct Sending {
    pub wire: Seq<u8>,
    pub end: SendEnd,
}

/// What [`send_framed`] makes of its reads, one after the other, after `total`
/// payload bytes.
pub open spec fn sending(total: nat, events: Seq<Result<Seq<u8>, IoError>>) -> Sending
    decreases events.len(),
{
    let none = Seq::<u8>::empty();
    if events.len() == 0 {
        Sending { wire: none, end: SendEnd::Open }
    } else {
        let rest = sending(sent_total(total, events[0]), events.skip(1));
        match send_next(total, events[0]) {
            SendModel::Read => rest,
            SendModel::Write(bytes) => Sending { wire: bytes + rest.wire, end: rest.end },
            SendModel::Finish(bytes) => Sending { wire: bytes, end: SendEnd::Finished { total } },
            SendModel::Fail(e) => Sending { wire: none, end: SendEnd::Failed(e) },
        }
    }
}

/// After such a read there is no other: the source ended, or reading failed.
pub open spec fn is_last_read(event: Result<Seq<u8>, IoError>) -> bool {
    match event {
        Ok(chunk) => chunk.len() == 0,
        Err(e) => !(e.kind is Interrupted),
    }
}

/// The chunks that were read before the source ended or reading failed.
pub open spec fn chunks_read(events: Seq<Result<Seq<u8>, IoError>>) -> Seq<Seq<u8>>
    decreases events.len(),
{
    if events.len() == 0 || is_last_read(events[0]) {
        Seq::empty()
    } else {
        match events[0] {
            Ok(chunk) => seq![chunk] + chunks_read(events.skip(1)),
            Err(_) => chunks_read(events.skip(1)),
        }
    }
}

/// The first read that no other follows.
pub open spec fn last_read(events: Seq<Result<Seq<u8>, IoError>>) -> Option<
    Result<Seq<u8>, IoError>,
>
    decreases events.len(),
{
    if events.len() == 0 {
        None
    } else if is_last_read(events[0]) {
        Some(events[0])
    } else {
        last_read(events.skip(1))
    }
}

/// How far a sender of `total` payload bytes comes, from the last of its reads.
pub open spec fn send_end(last: Option<Result<Seq<u8>, IoError>>, total: nat) -> SendEnd {
    match last {
        None => SendEnd::Open,
        Some(Ok(_)) => SendEnd::Finished { total },
        Some(Err(e)) => SendEnd::Failed(e),
    }
}

proof fn lemma_sending(total: nat, events: Seq<Result<Seq<u8>, IoError>>)
    ensures
        ({
            let s = sending(total, events);
            let chunks = chunks_read(events);
            let all = total + payload_of(chunks).len();
            &&& s.end == send_end(last_read(events), all)
            &&& s.wire == frames_of(chunks) + (if s.end is Finished {
                terminator(all)
            } else {
                Seq::empty()
            })
        }),
    decreases events.len(),
{
    let s = sending(total, events);
    let chunks = chunks_read(events);
    if events.len() == 0 || is_last_read(events[0]) {
        assert(chunks =~= Seq::<Seq<u8>>::empty());
        assert(payload_of(chunks).len() == 0);
        if s.end is Finished {
            assert(s.wire =~= frames_of(chunks) + terminator(total));
        } else {
            assert(s.wire =~= frames_of(chunks) + Seq::<u8>::empty());
        }
    } else {
        let later = chunks_read(events.skip(1));
        lemma_sending(sent_total(total, events[0]), events.skip(1));
        if let Ok(chunk) = events[0] {
            let rest = sending(total + chunk.len(), events.skip(1));
            assert(chunks.skip(1) =~= later);
            assert(payload_of(chunks).len() == chunk.len() + payload_of(later).len());
            let tail = if s.end is Finished {
                terminator(total + payload_of(chunks).len())
            } else {
                Seq::empty()
            };
            assert(s.wire =~= frame(chunk) + (frames_of(later) + tail));
            assert(s.wire =~= frames_of(chunks) + tail);
        }
    }
}

/// A sender that reached the end of its source wrote every chunk it read, each in
/// its frame, then the terminator with their total; one whose read failed wrote
/// the frames alone. Whether it finished is decided by the first read that no
/// other follows; interruptions leave no trace.
pub proof fn lemma_sender_writes_what_it_reads(events: Seq<Result<Seq<u8>, IoError>>)
    ensures
        ({
            let s = sending(0, events);
            let chunks = chunks_read(events);
            &&& s.end == send_end(last_read(events), payload_of(chunks).len())
            &&& s.end is Finished ==> s.wire == wire_of(chunks)
            &&& s.end !is Finished ==> s.wire == frames_of(chunks)
        }),
{
    lemma_sending(0, events);
    let s = sending(0, events);
    if s.end !is Finished {
        assert(frames_of(chunks_read(events)) + Seq::<u8>::empty() =~= frames_of(
            chunks_read(events),
        ));
    }
}

proof fn lemma_chunks_read_fit(events: Seq<Result<Seq<u8>, IoError>>)
    requires
        forall|i: int|
            0 <= i < events.len() ==> ((#[trigger] events[i]) matches Ok(c) ==> c.len()
                <= CHUNK_SIZE),
    ensures
        carriable(chunks_read(events)),
    decreases events.len(),
{
    if events.len() > 0 && !is_last_read(events[0]) {
        let rest = events.skip(1);
        assert forall|i: int| 0 <= i < rest.len() implies ((#[trigger] rest[i]) matches Ok(c) ==> c.len()
            <= CHUNK_SIZE) by {
            assert(rest[i] == events[i + 1]);
        }
        lemma_chunks_read_fit(rest);
        let chunks = chunks_read(events);
        let later = chunks_read(rest);
        assert forall|i: int| 0 <= i < chunks.len() implies 0 < (
        #[trigger] chunks[i]).len() <= MAX_FRAME by {
            if let Ok(chunk) = events[0] {
                if i > 0 {
                    assert(chunks[i] == later[i - 1]);
                }
            }
        }
    }
}

/// The receiver tells the two apart: what a finished sender wrote is read as a
/// complete stream with exactly the bytes that were read from the source, and
/// what any other sender wrote is a truncated one.
pub proof fn lemma_failed_read_is_seen(events: Seq<Result<Seq<u8>, IoError>>)
    requires
        forall|i: int|
            0 <= i < events.len() ==> ((#[trigger] events[i]) matches Ok(c) ==> c.len()
                <= CHUNK_SIZE),
        payload_of(chunks_read(events)).len() <= u64::MAX,
    ensures
        ({
            let s = sending(0, events);
            &&& s.end is Finished ==> unframed(s.wire, 0) == Unframed {
                payload: payload_of(chunks_read(events)),
                end: End::Complete { used: s.wire.len() },
            }
            &&& s.end !is Finished ==> unframed(s.wire, 0).end is Truncated
        }),
{
    let s = sending(0, events);
    let chunks = chunks_read(events);
    lemma_sender_writes_what_it_reads(events);
    lemma_chunks_read_fit(events);
    if s.end is Finished {
        lemma_wire_roundtrip(chunks, Seq::empty());
        assert(s.wire + Seq::<u8>::empty() =~= s.wire);
    } else {
        lemma_little_endian_len(0, 4);
        lemma_little_endian_len(payload_of(chunks).len(), 8);
        lemma_truncation_is_seen(chunks, frames_of(chunks).len());
        assert(wire_of(chunks).take(frames_of(chunks).len() as int) =~= s.wire);
    }
}

/// A complete stream is one that a sender wrote: its frames, then the
/// terminator with the right total. Returns the chunks.
pub proof fn lemma_complete_is_written(wire: Seq<u8>, total: nat) -> (chunks: Seq<Seq<u8>>)
    requires
        unframed(wire, total).end is Complete,
    ensures
        carriable(chunks),
        payload_of(chunks) == unframed(wire, total).payload,
        unframed(wire, total).end == (End::Complete { used: frames_of(chunks).len() + 12 }),
        frames_of(chunks).len() + 12 <= wire.len(),
        wire.take((frames_of(chunks).len() + 12) as int) == frames_of(chunks) + terminator(
            total + payload_of(chunks).len(),
        ),
    decreases wire.len(),
{
    let len = from_little_endian(wire.take(4));
    lemma_little_endian_of_value(wire.take(4));
    if len == 0 {
        let chunks = Seq::<Seq<u8>>::empty();
        lemma_little_endian_of_value(wire.subrange(4, 12));
        assert(wire.take(12) =~= wire.take(4) + wire.subrange(4, 12));
        assert(frames_of(chunks) + terminator(total) =~= terminator(total));
        chunks
    } else {
        let rest = wire.skip((4 + len) as int);
        let later = lemma_complete_is_written(rest, total + len);
        let first = wire.subrange(4, (4 + len) as int);
        let chunks = seq![first] + later;
        assert(chunks.skip(1) =~= later);
        assert(carriable(chunks)) by {
            assert forall|i: int| 0 <= i < chunks.len() implies 0 < (
            #[trigger] chunks[i]).len() <= MAX_FRAME by {
                if i > 0 {
                    assert(chunks[i] == later[i - 1]);
                }
            }
        }
        let end = terminator(total + len + payload_of(later).len());
        assert(payload_of(chunks).len() == len + payload_of(later).len());
        assert(frame(first) =~= wire.take((4 + len) as int));
        let used = frames_of(later).len() + 12;
        assert(wire.take((4 + len + used) as int) =~= frame(first) + rest.take(used as int));
        assert(frame(first) + (frames_of(later) + end) =~= frames_of(chunks) + end);
        chunks
    }
}

} // verus!
