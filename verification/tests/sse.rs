use gpt_copy_v5_backend::openrouter::OpenRouterError;
use gpt_copy_v5_backend::sse::{AnswerReader, SseData, SseDecoder, StreamEvent};

fn payload(s: &str) -> SseData {
    SseData::Payload(s.to_owned())
}

#[test]
fn complete_events_are_decoded() {
    let mut decoder = SseDecoder::new();
    let out = decoder.feed_text("data: {\"a\":1}\n\ndata: [DONE]\n\n");
    assert_eq!(out, vec![payload("{\"a\":1}"), SseData::Done]);
}

#[test]
fn incomplete_event_waits_for_its_blank_line() {
    let mut decoder = SseDecoder::new();
    assert_eq!(decoder.feed_text("data: {\"x\""), vec![]);
    assert_eq!(decoder.feed_text(":2}\n"), vec![]);
    assert_eq!(decoder.feed_text("\n"), vec![payload("{\"x\":2}")]);
}

#[test]
fn comments_and_other_fields_are_skipped() {
    let mut decoder = SseDecoder::new();
    let out = decoder.feed_text(": OPENROUTER PROCESSING\n\nevent: message\ndata:one\r\ndata:  two  \n\n");
    assert_eq!(out, vec![payload("one"), payload("two")]);
}

#[test]
fn decoding_does_not_depend_on_cuts() {
    let text = "data: a\n\n: note\n\ndata: b\r\ndata: [DONE]\n\ndata: tail";
    let mut whole = SseDecoder::new();
    let expected = whole.feed_text(text);
    let chars: Vec<char> = text.chars().collect();
    for cut in 0..=chars.len() {
        let first: String = chars[..cut].iter().collect();
        let second: String = chars[cut..].iter().collect();
        let mut decoder = SseDecoder::new();
        let mut got = decoder.feed_text(&first);
        got.extend(decoder.feed_text(&second));
        assert_eq!(got, expected, "cut at {cut}");
    }
    assert_eq!(expected, vec![payload("a"), payload("b"), SseData::Done]);
}

#[test]
fn bytes_are_read_as_utf8() {
    let mut decoder = SseDecoder::new();
    let out = decoder.feed("data: héllo\n\n".as_bytes());
    assert_eq!(out, vec![payload("héllo")]);
    let out = decoder.feed(b"data: \xff\n\n");
    assert_eq!(out, vec![payload("\u{fffd}")]);
}

/// The event-stream reading done directly with `std`'s string functions.
fn reference(chunks: &[&str]) -> Vec<SseData> {
    let mut out = Vec::new();
    let mut buffer = String::new();
    for chunk in chunks {
        buffer.push_str(chunk);
        while let Some(index) = buffer.find("\n\n") {
            let frame = buffer[..index].to_owned();
            buffer = buffer[index + 2..].to_owned();
            for line in frame.lines() {
                let Some(data) = line.strip_prefix("data:") else {
                    continue;
                };
                let data = data.trim();
                if data == "[DONE]" {
                    out.push(SseData::Done);
                } else {
                    out.push(SseData::Payload(data.to_owned()));
                }
            }
        }
    }
    out
}

#[test]
fn decoding_agrees_with_std_reading() {
    let pieces = ["data:", " x", "\n", "\r", "\n\n", ":c", "data: [DONE]", " ", "é", "data:\u{3000}y\u{3000}", "\r\n", "event: e"];
    let mut seed: u64 = 0x2545F4914F6CDD1D;
    for _ in 0..400 {
        let mut chunks: Vec<String> = Vec::new();
        for _ in 0..8 {
            let mut chunk = String::new();
            for _ in 0..3 {
                seed ^= seed << 13;
                seed ^= seed >> 7;
                seed ^= seed << 17;
                chunk.push_str(pieces[(seed % pieces.len() as u64) as usize]);
            }
            chunks.push(chunk);
        }
        let refs: Vec<&str> = chunks.iter().map(|c| c.as_str()).collect();
        let mut decoder = SseDecoder::new();
        let mut got = Vec::new();
        for c in &refs {
            got.extend(decoder.feed_text(c));
        }
        assert_eq!(got, reference(&refs), "{refs:?}");
    }
}

/// Reads a whole body the way the server does: a payload is read as
/// `{"choices":[{"delta":{"content":...}}]}` when it has that shape
/// (a missing content is `None`), and is unreadable otherwise.
fn read_body(chunks: &[&[u8]]) -> Vec<Result<String, OpenRouterError>> {
    let mut reader = AnswerReader::new();
    let mut out = Vec::new();
    for chunk in chunks {
        for data in reader.feed(chunk) {
            if reader.is_ended() {
                break;
            }
            let event = match data {
                SseData::Done => StreamEvent::Done,
                SseData::Payload(text) => match text.strip_prefix("delta:") {
                    Some(content) => StreamEvent::Deltas(vec![Some(content.to_owned())]),
                    None => StreamEvent::Unreadable(format!("cannot read {text}")),
                },
            };
            if let Some(item) = reader.accept(event) {
                out.push(item);
            }
        }
        if reader.is_ended() {
            break;
        }
    }
    out
}

#[test]
fn reading_stops_at_the_end_marker() {
    let body = b"data: delta:A\n\ndata: [DONE]\n\ndata: not json\n\n";
    assert_eq!(read_body(&[&body[..]]), vec![Ok("A".to_owned())]);
}

#[test]
fn unreadable_payload_ends_the_reading() {
    let body = b"data: delta:A\n\ndata: oops\n\ndata: delta:B\n\n";
    assert_eq!(
        read_body(&[&body[..]]),
        vec![
            Ok("A".to_owned()),
            Err(OpenRouterError::InvalidResponse("cannot read oops".to_owned())),
        ]
    );
}

#[test]
fn ended_reading_hands_on_nothing() {
    let mut reader = AnswerReader::new();
    assert_eq!(reader.accept(StreamEvent::Deltas(vec![Some("x".to_owned())])), Some(Ok("x".to_owned())));
    assert_eq!(reader.accept(StreamEvent::Deltas(vec![Some(String::new())])), None);
    assert!(!reader.is_ended());
    assert_eq!(
        reader.accept(StreamEvent::Broken("reset".to_owned())),
        Some(Err(OpenRouterError::Transport("reset".to_owned())))
    );
    assert!(reader.is_ended());
    assert_eq!(reader.accept(StreamEvent::Deltas(vec![Some("y".to_owned())])), None);
    assert_eq!(reader.feed(b"data: delta:z\n\n"), vec![]);
}
