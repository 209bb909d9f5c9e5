use moondream::decoder::{
    event_payload, extract_chunk, FrameDecoder, StreamAction, StreamError,
};
use moondream::session::{decode_stream, transcript};

fn frame(chunk: &str) -> Vec<u8> {
    format!("data: {{\"chunk\":\"{}\"}}\n", chunk).into_bytes()
}

fn feed_all(decoder: &mut FrameDecoder, fragments: &[&[u8]]) -> Vec<String> {
    let mut chunks = Vec::new();
    for fragment in fragments {
        match decoder.feed(fragment) {
            Ok(fresh) => chunks.extend(fresh),
            Err(_) => panic!("fragment refused"),
        }
    }
    chunks
}

#[test]
fn chunks_come_out_in_the_order_of_their_lines() {
    let mut stream = frame("A");
    stream.extend(frame("B"));
    stream.extend(frame("C"));
    let mut decoder = FrameDecoder::new();
    let chunks = feed_all(&mut decoder, &[&stream]);
    assert_eq!(chunks, vec!["A", "B", "C"]);
    assert_eq!(decoder.pending(), "");
}

#[test]
fn trailing_partial_line_is_dropped() {
    let mut stream = frame("A");
    stream.extend_from_slice(b"data: {\"chunk\":\"D\"}");
    let outcome = decode_stream::<()>(&vec![stream], None);
    assert_eq!(outcome.chunks, vec!["A"]);
    assert!(outcome.error.is_none());
}

#[test]
fn partial_line_waits_for_its_line_feed() {
    let mut decoder = FrameDecoder::new();
    let first = decoder.feed(b"data: {\"chunk\":\"D\"}");
    assert!(matches!(first, Ok(ref chunks) if chunks.is_empty()));
    assert_eq!(decoder.pending(), "data: {\"chunk\":\"D\"}");
    let second = decoder.feed(b"\n");
    assert!(matches!(second, Ok(ref chunks) if chunks == &vec!["D".to_string()]));
    assert_eq!(decoder.pending(), "");
}

#[test]
fn end_to_end_hello_world() {
    let stream = b"data: {\"chunk\":\"Hello\"}\n\ndata: {\"chunk\":\" world\"}\n\n".to_vec();
    let outcome = decode_stream::<()>(&vec![stream], None);
    assert_eq!(outcome.chunks, vec!["Hello", " world"]);
    assert!(outcome.error.is_none());
    assert_eq!(transcript(&outcome.chunks), "Hello world");
}

#[test]
fn one_byte_at_a_time_gives_the_same_chunks() {
    let stream = b"data: {\"chunk\":\"Hello\"}\n\n: ping\ndata: {\"chunk\":\" world\"}\n\ndata: {\"chu".to_vec();
    let whole = decode_stream::<()>(&vec![stream.clone()], None);
    let bytes: Vec<Vec<u8>> = stream.iter().map(|byte| vec![*byte]).collect();
    let cut = decode_stream::<()>(&bytes, None);
    assert_eq!(whole.chunks, vec!["Hello", " world"]);
    assert_eq!(cut.chunks, whole.chunks);
    assert!(cut.error.is_none());
}

#[test]
fn every_cut_in_two_gives_the_same_chunks() {
    let stream = b"data: {\"chunk\":\"A\"}\nnoise\n  data: {\"chunk\":\"B\"}  \n".to_vec();
    for at in 0..=stream.len() {
        let fragments = vec![stream[..at].to_vec(), stream[at..].to_vec()];
        let outcome = decode_stream::<()>(&fragments, None);
        assert_eq!(outcome.chunks, vec!["A", "B"]);
        assert!(outcome.error.is_none());
    }
}

#[test]
fn empty_fragments_change_nothing() {
    let mut decoder = FrameDecoder::new();
    let chunks = feed_all(&mut decoder, &[b"", b"data: {\"chunk\"", b"", b":\"A\"}\n", b""]);
    assert_eq!(chunks, vec!["A"]);
}

#[test]
fn noise_gives_no_chunk_and_no_error() {
    let lines: [&[u8]; 9] = [
        b"\n",
        b"   \t \n",
        b"event: message\n",
        b": keep-alive\n",
        b"data:{\"chunk\":\"no space\"}\n",
        b"data: {\"chunk\":\n",
        b"data: {\"other\":\"x\"}\n",
        b"data: {\"chunk\":42}\n",
        b"data: [\"chunk\"]\n",
    ];
    let mut decoder = FrameDecoder::new();
    for line in lines {
        let outcome = decoder.feed(line);
        assert!(matches!(outcome, Ok(ref chunks) if chunks.is_empty()));
        assert_eq!(decoder.pending(), "");
    }
}

#[test]
fn noise_between_frames_is_skipped() {
    let stream = b"data: {\"chunk\":\"A\"}\ndata: not json\n\ndata: {\"chunk\":\"B\"}\n".to_vec();
    let outcome = decode_stream::<()>(&vec![stream], None);
    assert_eq!(outcome.chunks, vec!["A", "B"]);
    assert!(outcome.error.is_none());
}

#[test]
fn transport_failure_keeps_what_was_delivered() {
    let fragments = vec![frame("A"), frame("B")];
    let outcome = decode_stream(&fragments, Some("connection reset"));
    assert_eq!(outcome.chunks, vec!["A", "B"]);
    assert!(matches!(outcome.error, Some(StreamError::Transport("connection reset"))));
}

#[test]
fn malformed_third_line_ends_cleanly() {
    let fragments = vec![frame("A"), frame("B"), b"data: {\"chunk\":\"C\n".to_vec()];
    let outcome = decode_stream::<&str>(&fragments, None);
    assert_eq!(outcome.chunks, vec!["A", "B"]);
    assert!(outcome.error.is_none());
}

#[test]
fn invalid_utf8_is_fatal() {
    let fragments = vec![frame("A"), vec![0xff, b'\n'], frame("B")];
    let outcome = decode_stream::<()>(&fragments, None);
    assert_eq!(outcome.chunks, vec!["A"]);
    assert!(matches!(outcome.error, Some(StreamError::Decode(_))));
}

#[test]
fn decode_error_comes_before_a_later_transport_failure() {
    let fragments = vec![vec![0xc3]];
    let outcome = decode_stream(&fragments, Some(7));
    assert!(outcome.chunks.is_empty());
    assert!(matches!(outcome.error, Some(StreamError::Decode(_))));
}

#[test]
fn character_split_between_fragments_is_refused() {
    let stream = "data: {\"chunk\":\"\u{e9}\"}\n".as_bytes().to_vec();
    let whole = decode_stream::<()>(&vec![stream.clone()], None);
    assert_eq!(whole.chunks, vec!["\u{e9}"]);
    let at = stream.iter().position(|byte| *byte == 0xc3).unwrap() + 1;
    let mut decoder = FrameDecoder::new();
    assert!(decoder.feed(&stream[..at]).is_err());
    assert_eq!(decoder.pending(), "");
}

#[test]
fn refused_fragment_leaves_the_pending_line() {
    let mut decoder = FrameDecoder::new();
    assert!(decoder.feed(b"data: {").is_ok());
    let refused = decoder.feed(&[0x80]);
    assert!(refused.is_err());
    assert_eq!(decoder.pending(), "data: {");
}

#[test]
fn multibyte_text_passes_whole() {
    let stream = "data: {\"chunk\":\"\u{4f60}\u{597d} \u{1f600}\"}\n".as_bytes().to_vec();
    let outcome = decode_stream::<()>(&vec![stream], None);
    assert_eq!(outcome.chunks, vec!["\u{4f60}\u{597d} \u{1f600}"]);
}

#[test]
fn escapes_in_the_chunk_are_decoded() {
    let stream = b"data: {\"chunk\":\"line\\nbreak \\\"q\\\"\"}\n".to_vec();
    let outcome = decode_stream::<()>(&vec![stream], None);
    assert_eq!(outcome.chunks, vec!["line\nbreak \"q\""]);
}

#[test]
fn carriage_return_is_trimmed_with_the_line() {
    let stream = b"data: {\"chunk\":\"A\"}\r\n\r\n".to_vec();
    let outcome = decode_stream::<()>(&vec![stream], None);
    assert_eq!(outcome.chunks, vec!["A"]);
}

#[test]
fn payload_is_what_follows_the_prefix() {
    assert_eq!(event_payload("  data: {\"a\":1} \t"), Some("{\"a\":1}"));
    assert_eq!(event_payload("data: "), None);
    assert_eq!(event_payload("data:  x"), Some(" x"));
    assert_eq!(event_payload("data:"), None);
    assert_eq!(event_payload("data:x"), None);
    assert_eq!(event_payload("Data: x"), None);
    assert_eq!(event_payload(""), None);
    assert_eq!(event_payload("x data: y"), None);
}

#[test]
fn chunk_of_a_line() {
    assert_eq!(extract_chunk("data: {\"chunk\":\"hi\"}"), Some("hi".to_string()));
    assert_eq!(extract_chunk("data: {\"chunk\":\"\"}"), Some(String::new()));
    assert_eq!(extract_chunk("data: {\"chunk\":\"a\",\"done\":false}"), Some("a".to_string()));
    assert_eq!(extract_chunk("data: {\"chunk\":null}"), None);
    assert_eq!(extract_chunk("data: {\"chunk\":\"a\"} trailing"), None);
    assert_eq!(extract_chunk("{\"chunk\":\"a\"}"), None);
}

#[test]
fn step_delivers_fails_and_finishes() {
    let mut decoder = FrameDecoder::new();
    let delivered = decoder.step::<&str>(Some(Ok(b"data: {\"chunk\":\"A\"}\ndata: {".to_vec())));
    assert!(matches!(delivered, StreamAction::Deliver(ref chunks) if chunks == &vec!["A".to_string()]));
    assert_eq!(decoder.pending(), "data: {");
    let failed = decoder.step(Some(Err("timeout")));
    assert!(matches!(failed, StreamAction::Abort(StreamError::Transport("timeout"))));
    assert_eq!(decoder.pending(), "data: {");
    let refused = decoder.step::<&str>(Some(Ok(vec![0xfe])));
    assert!(matches!(refused, StreamAction::Abort(StreamError::Decode(_))));
    let finished = decoder.step::<&str>(None);
    assert!(matches!(finished, StreamAction::Finish));
    assert_eq!(decoder.pending(), "");
}

#[test]
fn transcript_joins_in_order() {
    assert_eq!(transcript(&vec![]), "");
    let chunks = vec!["a".to_string(), String::new(), "bc".to_string()];
    assert_eq!(transcript(&chunks), "abc");
}

#[test]
fn transcript_of_a_session_is_that_of_its_frames() {
    let mut stream = Vec::new();
    let mut expected = String::new();
    for word in ["The", " quick", " brown", " fox"] {
        stream.extend(frame(word));
        stream.extend_from_slice(b"\n");
        expected.push_str(word);
    }
    let fragments: Vec<Vec<u8>> = stream.chunks(5).map(|piece| piece.to_vec()).collect();
    let outcome = decode_stream::<()>(&fragments, None);
    assert_eq!(transcript(&outcome.chunks), expected);
}

#[test]
fn take_lines_splits_at_line_feeds() {
    let mut decoder = FrameDecoder::new();
    assert!(decoder.take_lines("ab").is_empty());
    assert_eq!(decoder.pending(), "ab");
    assert_eq!(decoder.take_lines("c\n\n d \r\ne"), vec!["abc", "", " d \r"]);
    assert_eq!(decoder.pending(), "e");
    assert_eq!(decoder.take_lines("\n"), vec!["e"]);
    assert_eq!(decoder.pending(), "");
    assert!(decoder.take_lines("").is_empty());
}
