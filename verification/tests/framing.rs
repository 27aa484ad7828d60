use harnel::frame::{encode_frame, encode_output_frame, FrameReader, FrameStep, LineDecoder, MAX_FRAME};
use harnel::Error;

#[test]
fn encoded_frame_ends_with_newline() {
    let out = encode_frame(b"{\"a\":1}".to_vec()).unwrap();
    assert_eq!(out, b"{\"a\":1}\n".to_vec());
}

#[test]
fn oversized_frame_is_refused() {
    let body = vec![b'x'; MAX_FRAME + 1];
    match encode_frame(body) {
        Err(Error::Invalid(m)) => assert_eq!(m, "ACP frame exceeds 1 MiB"),
        _ => panic!("expected refusal"),
    }
    let body = vec![b'x'; MAX_FRAME + 1];
    match encode_output_frame(body) {
        Err(Error::Invalid(m)) => assert_eq!(m, "ACP output exceeds 1 MiB"),
        _ => panic!("expected refusal"),
    }
    assert_eq!(encode_frame(vec![b'x'; MAX_FRAME]).unwrap().len(), MAX_FRAME + 1);
}

#[test]
fn decoder_splits_lines_and_skips_empty_ones() {
    let mut d = LineDecoder::new();
    let lines = d.feed(b"\n{\"a\":1}\n\n{\"b\"");
    assert!(!lines.overflow);
    assert_eq!(lines.frames, vec![b"{\"a\":1}".to_vec()]);
    let lines = d.feed(b":2}\n");
    assert_eq!(lines.frames, vec![b"{\"b\":2}".to_vec()]);
}

#[test]
fn decoder_round_trips_encoded_frame() {
    let body = b"{\"jsonrpc\":\"2.0\",\"id\":1}".to_vec();
    let framed = encode_frame(body.clone()).unwrap();
    let mut d = LineDecoder::new();
    let lines = d.feed(&framed);
    assert_eq!(lines.frames, vec![body]);
    assert!(!lines.overflow);
}

#[test]
fn decoder_chunking_does_not_matter() {
    let stream = b"one\ntwo\n\nthree\nfour";
    let mut whole = LineDecoder::new();
    let all = whole.feed(stream);
    let mut parts = LineDecoder::new();
    let mut frames = Vec::new();
    for chunk in stream.chunks(3) {
        frames.extend(parts.feed(chunk).frames);
    }
    assert_eq!(all.frames, frames);
    assert_eq!(frames.len(), 3);
}

#[test]
fn decoder_stops_on_overlong_line() {
    let mut d = LineDecoder::new();
    let long = vec![b'y'; MAX_FRAME + 1];
    let lines = d.feed(&long);
    assert!(lines.overflow);
    let mut d = LineDecoder::new();
    let exact = vec![b'y'; MAX_FRAME];
    let mut input = exact.clone();
    input.push(b'\n');
    let lines = d.feed(&input);
    assert!(!lines.overflow);
    assert_eq!(lines.frames, vec![exact]);
}

#[test]
fn reader_reads_one_message_per_line() {
    let mut r = FrameReader::new();
    match r.step(b"{\"x\":1}\n{\"y\"") {
        FrameStep::Frame(n, body) => {
            assert_eq!(n, 8);
            assert_eq!(body, b"{\"x\":1}\n".to_vec());
        }
        _ => panic!("expected a frame"),
    }
    match r.step(b"{\"y\"") {
        FrameStep::Continue(n) => assert_eq!(n, 4),
        _ => panic!("expected continue"),
    }
    match r.step(b":2}\n") {
        FrameStep::Frame(n, body) => {
            assert_eq!(n, 4);
            assert_eq!(body, b"{\"y\":2}\n".to_vec());
        }
        _ => panic!("expected a frame"),
    }
    assert!(matches!(r.step(b""), FrameStep::End));
}

#[test]
fn reader_skips_blank_lines_and_reports_truncation() {
    let mut r = FrameReader::new();
    assert!(matches!(r.step(b"  \r\n"), FrameStep::Continue(4)));
    assert!(matches!(r.step(b"{\"partial\""), FrameStep::Continue(10)));
    match r.step(b"") {
        FrameStep::Failed(Error::Invalid(m)) => assert_eq!(m, "truncated ACP frame"),
        _ => panic!("expected truncation"),
    }
}

#[test]
fn reader_refuses_oversized_message() {
    let mut r = FrameReader::new();
    let mut big = vec![b'z'; MAX_FRAME + 1];
    big.push(b'\n');
    match r.step(&big) {
        FrameStep::Failed(Error::Invalid(m)) => assert_eq!(m, "ACP frame exceeds 1 MiB"),
        _ => panic!("expected refusal"),
    }
    let mut r = FrameReader::new();
    let mut max = vec![b'z'; MAX_FRAME];
    max.push(b'\n');
    assert!(matches!(r.step(&max), FrameStep::Frame(n, _) if n == MAX_FRAME + 1));
}
