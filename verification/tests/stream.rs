//! Stream decoding: fragment boundaries, keep-alive lines, the done
//! sentinel, and assembly of the decoded chunks.

use hampter::assemble::assemble_content;
use hampter::chat::MessageChunk;
use hampter::decoder::{DecodeMode, StreamDecoder};
use hampter::error::HampterError;

fn data_line(content: &str) -> String {
    format!(
        "data: {{\"id\":\"c1\",\"object\":\"chat.completion.chunk\",\"created\":1,\"model\":\"m1\",\"choices\":[{{\"index\":0,\"delta\":{{\"content\":\"{}\"}}}}]}}",
        content
    )
}

fn contents(chunks: &Vec<MessageChunk>) -> Vec<String> {
    chunks
        .iter()
        .map(|c| c.content(None).expect("choice 0 present").clone())
        .collect()
}

#[test]
fn end_to_end_two_chunks_then_done() {
    let mut dec = StreamDecoder::new();
    dec.feed(format!("{}\n", data_line("Hel")).as_bytes()).unwrap();
    dec.feed(b"\n").unwrap();
    dec.feed(format!("{}\n", data_line("lo")).as_bytes()).unwrap();
    dec.feed(b"data: [DONE]\n").unwrap();
    dec.feed(format!("{}\n", data_line("ignored")).as_bytes()).unwrap();
    assert_eq!(dec.mode(), DecodeMode::Done);
    assert_eq!(dec.chunks().len(), 2);
    assert_eq!(contents(dec.chunks()), vec!["Hel".to_string(), "lo".to_string()]);
    let text = assemble_content(dec.chunks(), None).unwrap();
    assert_eq!(text, "Hello");
}

#[test]
fn one_byte_at_a_time_equals_one_block() {
    let stream = format!(
        "{}\n\n{}\ndata: [DONE]\n",
        data_line("Hel"),
        data_line("lo")
    );

    let mut whole = StreamDecoder::new();
    whole.feed(stream.as_bytes()).unwrap();

    let mut dribble = StreamDecoder::new();
    for b in stream.as_bytes() {
        dribble.feed(&[*b]).unwrap();
    }

    assert_eq!(whole.mode(), dribble.mode());
    assert_eq!(contents(whole.chunks()), contents(dribble.chunks()));
    assert_eq!(contents(whole.chunks()), vec!["Hel".to_string(), "lo".to_string()]);
}

#[test]
fn multibyte_character_split_across_fragments() {
    let line = format!("{}\n", data_line("héllo ✓"));
    let bytes = line.as_bytes();
    let mid = 12; // inside the line, independent of character boundaries
    let mut dec = StreamDecoder::new();
    dec.feed(&bytes[..mid]).unwrap();
    dec.feed(&bytes[mid..]).unwrap();
    dec.finish().unwrap();
    assert_eq!(contents(dec.chunks()), vec!["héllo ✓".to_string()]);
}

#[test]
fn sentinel_ends_sequence_even_with_more_bytes() {
    let mut dec = StreamDecoder::new();
    dec.feed(b"data: [DONE]\n").unwrap();
    assert_eq!(dec.mode(), DecodeMode::Done);
    dec.feed(format!("{}\n", data_line("after")).as_bytes()).unwrap();
    assert_eq!(dec.mode(), DecodeMode::Done);
    assert_eq!(dec.chunks().len(), 0);
}

#[test]
fn sentinel_matches_case_insensitively() {
    let mut dec = StreamDecoder::new();
    dec.feed(b"DATA: [done]\n").unwrap();
    assert_eq!(dec.mode(), DecodeMode::Done);
}

#[test]
fn empty_lines_are_skipped_not_chunks() {
    let mut dec = StreamDecoder::new();
    dec.feed(b"\n\n").unwrap();
    dec.feed(format!("{}\n", data_line("a")).as_bytes()).unwrap();
    dec.feed(b"\n").unwrap();
    dec.feed(format!("{}\n", data_line("b")).as_bytes()).unwrap();
    dec.feed(b"\n").unwrap();
    assert_eq!(dec.mode(), DecodeMode::Active);
    assert_eq!(contents(dec.chunks()), vec!["a".to_string(), "b".to_string()]);
}

#[test]
fn short_line_is_decode_error_and_halts() {
    let mut dec = StreamDecoder::new();
    dec.feed(format!("{}\n", data_line("ok")).as_bytes()).unwrap();
    let r = dec.feed(b"data:\n");
    assert_eq!(r, Err(HampterError::DecodeError));
    assert_eq!(dec.mode(), DecodeMode::Failed);
    // Chunks decoded before the bad line stay available; nothing is added after.
    dec.feed(format!("{}\n", data_line("late")).as_bytes()).unwrap();
    assert_eq!(contents(dec.chunks()), vec!["ok".to_string()]);
}

#[test]
fn malformed_payload_is_decode_error() {
    let mut dec = StreamDecoder::new();
    let r = dec.feed(b"data: {\"id\":\"x\"\n");
    assert_eq!(r, Err(HampterError::DecodeError));
    assert_eq!(dec.mode(), DecodeMode::Failed);
}

#[test]
fn invalid_utf8_line_is_decode_error() {
    let mut dec = StreamDecoder::new();
    let r = dec.feed(&[b'd', b'a', b't', b'a', 0xFF, 0xFE, b'\n']);
    assert_eq!(r, Err(HampterError::DecodeError));
    assert_eq!(dec.mode(), DecodeMode::Failed);
}

#[test]
fn crlf_line_endings_are_accepted() {
    let mut dec = StreamDecoder::new();
    dec.feed(format!("{}\r\n", data_line("crlf")).as_bytes()).unwrap();
    assert_eq!(contents(dec.chunks()), vec!["crlf".to_string()]);
}

#[test]
fn finish_decodes_a_trailing_partial_line() {
    let mut dec = StreamDecoder::new();
    dec.feed(data_line("tail").as_bytes()).unwrap();
    assert_eq!(dec.chunks().len(), 0);
    dec.finish().unwrap();
    assert_eq!(contents(dec.chunks()), vec!["tail".to_string()]);
}

#[test]
fn finish_on_undecodable_tail_is_decode_error() {
    let mut dec = StreamDecoder::new();
    dec.feed(b"data:").unwrap();
    assert_eq!(dec.finish(), Err(HampterError::DecodeError));
    assert_eq!(dec.mode(), DecodeMode::Failed);
}

#[test]
fn into_chunks_hands_the_list_over() {
    let mut dec = StreamDecoder::new();
    dec.feed(format!("{}\n", data_line("x")).as_bytes()).unwrap();
    let chunks = dec.into_chunks();
    assert_eq!(contents(&chunks), vec!["x".to_string()]);
}

#[test]
fn assemble_picks_the_requested_choice() {
    let line = "data: {\"id\":\"c\",\"object\":\"o\",\"created\":3,\"model\":\"m\",\"choices\":[{\"index\":0,\"delta\":{\"content\":\"zero\"}},{\"index\":1,\"delta\":{\"content\":\"one\"}}]}";
    let mut dec = StreamDecoder::new();
    dec.feed(format!("{}\n{}\n", line, line).as_bytes()).unwrap();
    let chunks = dec.into_chunks();
    assert_eq!(assemble_content(&chunks, Some(1)).unwrap(), "oneone");
    assert_eq!(assemble_content(&chunks, Some(0)).unwrap(), "zerozero");
    assert_eq!(assemble_content(&chunks, None).unwrap(), "zerozero");
    assert_eq!(
        assemble_content(&chunks, Some(2)),
        Err(HampterError::IndexError)
    );
}

#[test]
fn assemble_of_nothing_is_empty() {
    let chunks: Vec<MessageChunk> = Vec::new();
    assert_eq!(assemble_content(&chunks, None).unwrap(), "");
}
