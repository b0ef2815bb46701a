use workflow_engine::diagnostic::{
    assemble_spawn_line, CapturedDiagnosticStream, DiagnosticStreamCapture, DiagnosticTruncation,
    ProcessSpawnDiagnostic, StepDiagnostic, StepDiagnosticLog, StreamAction, StreamDrain,
    StreamEvent,
};
use workflow_engine::runtime::ActionId;

fn id(transition_sequence: u64) -> ActionId {
    ActionId {
        transition_sequence,
    }
}

fn drained(bytes: &[u8], maximum_bytes: u64, maximum_chunks: &[usize]) -> CapturedDiagnosticStream {
    let mut drain = StreamDrain::begin(maximum_bytes, 1);
    let mut position = 0;
    let mut chunk = 0;
    while position < bytes.len() {
        let length = maximum_chunks[chunk % maximum_chunks.len()].min(bytes.len() - position);
        let sequence = 1 + u64::try_from(chunk).unwrap();
        assert_eq!(
            drain.drain_stream(StreamEvent::Read {
                bytes: &bytes[position..position + length],
            }),
            StreamAction::Observe { sequence }
        );
        position += length;
        chunk += 1;
    }
    assert_eq!(
        drain.drain_stream(StreamEvent::Interrupted),
        StreamAction::ReadAgain
    );
    let StreamAction::Close {
        sequence,
        fully_drained,
    } = drain.drain_stream(StreamEvent::Ended)
    else {
        panic!("the end of a stream closes it");
    };
    assert_eq!(sequence, 1 + u64::try_from(chunk).unwrap());
    drain.finish(fully_drained)
}

#[test]
fn nontruncated_streams_preserve_raw_bytes_independently() {
    let standard_output = [0, 0xff, b'\n', 1];
    let standard_error = [b'e', 0x80, b'r'];
    let mut log = StepDiagnosticLog::default();
    log.record(
        "step".to_owned(),
        id(1),
        drained(&standard_output, 16, &[2, 1]),
        drained(&standard_error, 16, &[1]),
    );

    let captured = log.get("step").unwrap();
    assert_eq!(captured.standard_output().bytes(), standard_output);
    assert_eq!(captured.standard_error().bytes(), standard_error);
    assert_eq!(captured.standard_output().truncation(), None);
    assert_eq!(captured.standard_error().truncation(), None);
    assert!(captured.standard_output().fully_drained());
    assert!(captured.standard_error().fully_drained());
}

#[test]
fn truncation_is_independent_chunk_invariant_and_drains_to_eof() {
    let single_read = StepDiagnostic::from_streams(
        drained(b"abcdefghijk", 5, &[64]),
        drained(b"12345678", 5, &[64]),
    );
    let fragmented = StepDiagnostic::from_streams(
        drained(b"abcdefghijk", 5, &[1, 4, 2]),
        drained(b"12345678", 5, &[3, 1]),
    );

    assert_eq!(single_read, fragmented);
    assert_eq!(single_read.standard_output().bytes(), b"abcde");
    assert_eq!(single_read.standard_error().bytes(), b"12345");
    assert_eq!(
        single_read
            .standard_output()
            .truncation()
            .map(DiagnosticTruncation::discarded_bytes),
        Some(6)
    );
    assert_eq!(
        single_read
            .standard_error()
            .truncation()
            .map(DiagnosticTruncation::discarded_bytes),
        Some(3)
    );
    assert!(single_read.standard_output().fully_drained());
    assert!(single_read.standard_error().fully_drained());
}

#[test]
fn failed_readers_leave_streams_undrained() {
    let mut drain = StreamDrain::begin(4, 0);
    drain.drain_stream(StreamEvent::Read { bytes: b"ab" });
    assert_eq!(
        drain.drain_stream(StreamEvent::Failed),
        StreamAction::Close {
            sequence: 1,
            fully_drained: false,
        }
    );
    let stream = drain.finish(false);
    assert_eq!(stream.bytes(), b"ab");
    assert!(!stream.fully_drained());
    let lost = CapturedDiagnosticStream::reader_unavailable();
    assert_eq!(
        lost,
        CapturedDiagnosticStream::from_parts(Vec::new(), 0, false)
    );
}

fn stream(content: &[u8]) -> CapturedDiagnosticStream {
    let mut capture = DiagnosticStreamCapture::new(64);
    capture.capture(content);
    capture.finish(true)
}

#[test]
fn the_latest_invocation_that_handled_no_recovery_is_told() {
    let mut log = StepDiagnosticLog::default();
    for sequence in [5, 2, 9] {
        log.record(
            "step".to_owned(),
            id(sequence),
            stream(&[u8::try_from(sequence).unwrap()]),
            stream(b""),
        );
    }
    log.record("other".to_owned(), id(7), stream(b"other"), stream(b""));
    assert_eq!(log.invocation_ids("step"), [id(2), id(5), id(9)]);
    assert_eq!(log.get("step").unwrap().standard_output().bytes(), [9]);
    log.mark_recovery_handler("step", id(9));
    assert!(log.is_recovery_handler("step", id(9)));
    assert!(!log.is_recovery_handler("other", id(9)));
    assert_eq!(log.get("step").unwrap().standard_output().bytes(), [5]);
    assert!(log.get_invocation("step", id(9)).is_some());
    assert!(log.get_invocation("step", id(3)).is_none());
    assert!(log.get("absent").is_none());
    log.record("step".to_owned(), id(5), stream(b"again"), stream(b""));
    assert_eq!(log.invocation_ids("step").len(), 3);
    assert_eq!(log.get("step").unwrap().standard_output().bytes(), b"again");
}

#[test]
fn spawn_failures_are_told_on_standard_error() {
    let error = ProcessSpawnDiagnostic::from_error("NotFound", Some(2), "no \"file\"\u{1}\t");
    let mut log = StepDiagnosticLog::default();
    log.record_process_spawn_failure("step".to_owned(), id(1), 4096, &error);
    let diagnostic = log.get("step").unwrap();
    let expected: &[u8] = b"{\"schemaVersion\":1,\"stage\":\"process_spawn\",\"errorCategory\":\"NotFound\",\"rawOsError\":2,\"message\":\"no \\\"file\\\"\\u0001\\t\"}\n";
    assert_eq!(diagnostic.standard_error().bytes(), expected);
    assert!(diagnostic.standard_output().bytes().is_empty());
    assert!(diagnostic.standard_output().fully_drained());
    log.record_process_spawn_failure("step".to_owned(), id(1), 8, &error);
    let truncated = log.get("step").unwrap().standard_error();
    assert_eq!(truncated.bytes(), &expected[..8]);
    assert_eq!(
        truncated
            .truncation()
            .map(DiagnosticTruncation::discarded_bytes),
        Some(u64::try_from(expected.len() - 8).unwrap())
    );
}

#[test]
fn spawn_lines_hold_numbers_and_null() {
    assert_eq!(
        assemble_spawn_line("\"Other\"", None, "\"m\""),
        "{\"schemaVersion\":1,\"stage\":\"process_spawn\",\"errorCategory\":\"Other\",\"rawOsError\":null,\"message\":\"m\"}\n"
    );
    assert!(assemble_spawn_line("\"Other\"", Some(i32::MIN), "\"m\"")
        .contains("\"rawOsError\":-2147483648,"));
}
