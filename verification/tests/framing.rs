use rem_exec::error::{IoError, IoKind};
use rem_exec::framing::{
    send_framed, write_framed, FrameError, FramedReader, SendStep, CHUNK_SIZE, MAX_FRAME,
};

fn roundtrip(payload: &[u8]) -> (Vec<u8>, bool, u64) {
    let mut wire = Vec::new();
    write_framed(payload, &mut wire);
    let mut reader = FramedReader::new();
    let out = reader.read_to_end(&wire, 8192).unwrap();
    (out, reader.is_complete(), reader.total())
}

#[test]
fn roundtrips_payloads_across_frame_boundaries() {
    for size in [0usize, 1, 100, CHUNK_SIZE - 1, CHUNK_SIZE, CHUNK_SIZE + 1] {
        let payload: Vec<u8> = (0..size).map(|i| (i % 251) as u8).collect();
        let (out, complete, total) = roundtrip(&payload);
        assert_eq!(out, payload, "payload of {size} bytes");
        assert!(complete, "payload of {size} bytes must be complete");
        assert_eq!(total, size as u64);
    }
}

#[test]
fn truncated_stream_is_unexpected_eof_not_a_short_read() {
    let payload = vec![7u8; 5000];
    let mut wire = Vec::new();
    write_framed(&payload[..], &mut wire);

    // Cut anywhere before the terminator: never a clean end.
    for cut in [1, 3, 4, 5, 2000, wire.len() - 1] {
        let mut reader = FramedReader::new();
        let err = reader
            .read_to_end(&wire[..cut], 8192)
            .expect_err("truncation must error");
        assert!(matches!(err, FrameError::UnexpectedEof), "cut at {cut}");
        assert!(!reader.is_complete(), "cut at {cut}");
    }
}

#[test]
fn payload_without_terminator_never_reports_complete() {
    // Exactly one full frame, then the stream dies — the shape a killed
    // sender produces. The bytes are all there; the promise is not.
    let mut wire = Vec::new();
    wire.extend_from_slice(&4u32.to_le_bytes());
    wire.extend_from_slice(b"data");

    let mut reader = FramedReader::new();
    let err = reader
        .read_to_end(&wire[..], 8192)
        .expect_err("missing terminator must error");
    assert!(matches!(err, FrameError::UnexpectedEof));
    assert!(!reader.is_complete());
}

#[test]
fn trailer_that_disagrees_with_the_payload_is_rejected() {
    let mut wire = Vec::new();
    wire.extend_from_slice(&4u32.to_le_bytes());
    wire.extend_from_slice(b"data");
    wire.extend_from_slice(&0u32.to_le_bytes());
    wire.extend_from_slice(&99u64.to_le_bytes()); // lies

    let mut reader = FramedReader::new();
    let err = reader
        .read_to_end(&wire[..], 8192)
        .expect_err("bad trailer must error");
    assert!(matches!(
        err,
        FrameError::Mismatch {
            declared: 99,
            read: 4
        }
    ));
    assert!(!reader.is_complete());
}

#[test]
fn empty_payload_is_complete_but_zero_length() {
    let (out, complete, total) = roundtrip(b"");
    assert!(out.is_empty());
    assert!(complete, "an empty stream is well-formed…");
    assert_eq!(total, 0, "…and the caller decides whether 0 bytes is legal");
}

#[test]
fn a_stream_is_frames_then_a_terminator_with_the_total() {
    let mut wire = Vec::new();
    assert_eq!(write_framed(b"data", &mut wire), 4);
    assert_eq!(
        wire,
        [
            4, 0, 0, 0, b'd', b'a', b't', b'a', 0, 0, 0, 0, 4, 0, 0, 0, 0, 0, 0, 0
        ]
    );
}

#[test]
fn an_oversized_frame_is_rejected_before_it_is_read() {
    let wire = (MAX_FRAME + 1).to_le_bytes();
    let mut reader = FramedReader::new();
    match reader.read_to_end(&wire, 8192) {
        Err(FrameError::TooLong(n)) => assert_eq!(n, MAX_FRAME + 1),
        other => panic!("expected an oversized frame, got {other:?}"),
    }
}

#[test]
fn bytes_after_the_terminator_are_left_alone() {
    let mut wire = Vec::new();
    write_framed(b"one", &mut wire);
    wire.extend_from_slice(b"next request");
    let mut reader = FramedReader::new();
    assert_eq!(reader.read_to_end(&wire, 2).unwrap(), b"one");
    assert!(reader.is_complete());
}

fn failed(kind: IoKind) -> Result<&'static [u8], IoError> {
    Err(IoError {
        kind,
        message: "read".to_string(),
    })
}

/// What a sender writes for its reads, and whether it finished.
fn sent(reads: Vec<Result<&[u8], IoError>>) -> (Vec<u8>, u64, bool) {
    let mut wire = Vec::new();
    let mut total = 0;
    for read in reads {
        match send_framed(&mut total, read) {
            SendStep::Read => {}
            SendStep::Write(bytes) => wire.extend_from_slice(&bytes),
            SendStep::Finish(bytes) => {
                wire.extend_from_slice(&bytes);
                return (wire, total, true);
            }
            SendStep::Fail(_) => return (wire, total, false),
        }
    }
    (wire, total, false)
}

#[test]
fn short_and_interrupted_reads_arrive_whole() {
    let (wire, total, finished) = sent(vec![
        Ok(b"da"),
        failed(IoKind::Interrupted),
        Ok(b"t"),
        Ok(b"a"),
        Ok(b""),
    ]);
    assert!(finished);
    assert_eq!(total, 4);
    assert_eq!(
        wire,
        [
            2, 0, 0, 0, b'd', b'a', 1, 0, 0, 0, b't', 1, 0, 0, 0, b'a', 0, 0, 0, 0, 4, 0, 0, 0, 0,
            0, 0, 0
        ]
    );
    let mut reader = FramedReader::new();
    assert_eq!(reader.read_to_end(&wire, 8192).unwrap(), b"data");
}

#[test]
fn a_failed_read_leaves_the_stream_without_its_terminator() {
    let (wire, total, finished) = sent(vec![Ok(b"data"), failed(IoKind::Other), Ok(b"")]);
    assert!(!finished);
    assert_eq!(total, 4);
    assert_eq!(wire, [4, 0, 0, 0, b'd', b'a', b't', b'a']);
    let mut reader = FramedReader::new();
    let err = reader.read_to_end(&wire, 8192).expect_err("cut");
    assert!(matches!(err, FrameError::UnexpectedEof));
    let mut total = 7;
    match send_framed(&mut total, failed(IoKind::BrokenPipe)) {
        SendStep::Fail(e) => assert!(matches!(e.kind, IoKind::BrokenPipe)),
        other => panic!("expected a failure, got {other:?}"),
    }
    assert_eq!(total, 7);
}

#[test]
fn a_rejected_trailer_is_not_waited_for_again() {
    let mut reader = FramedReader::new();
    assert_eq!(reader.accept(&[0; 4]), Ok(0));
    assert_eq!(reader.wanted(8192), 8);
    let lie = 9u64.to_le_bytes();
    assert!(reader.accept(&lie).is_err());
    assert!(!reader.is_complete());
    // What comes next is read as a length.
    assert_eq!(reader.wanted(8192), 4);
    assert_eq!(reader.accept(&3u32.to_le_bytes()), Ok(0));
    assert_eq!(reader.wanted(8192), 3);
    // Bytes that never came leave a frame as it is.
    reader.failed();
    assert_eq!(reader.wanted(8192), 3);
    // A trailer that never came is given up like one that was rejected.
    let mut reader = FramedReader::new();
    assert_eq!(reader.accept(&[0; 4]), Ok(0));
    reader.failed();
    assert_eq!(reader.wanted(8192), 4);
}
