use llm_pipe::event::StreamEvent;
use llm_pipe::record::events_of_delta;
use llm_pipe::record::Delta;
use llm_pipe::sse::decode_line;
use llm_pipe::sse::decode_payload;
use llm_pipe::sse::SseDecoder;

fn fragment(text: &str) -> StreamEvent {
    StreamEvent::TextFragment(text.to_string())
}

fn feed_in_chunks(chunks: &[&[u8]]) -> Vec<StreamEvent> {
    let mut decoder = SseDecoder::new();
    let mut events = Vec::new();
    for chunk in chunks {
        events.extend(decoder.feed(chunk));
    }
    events.extend(decoder.close());
    events
}

const HI: &[u8] =
    b"data: {\"choices\":[{\"delta\":{\"content\":\"Hi\"},\"finish_reason\":null}]}\n\n";
const BANG: &[u8] = b"data: {\"choices\":[{\"delta\":{\"content\":\"!\"}}]}\n\n";
const DONE: &[u8] = b"data: [DONE]\n\n";

#[test]
fn data_line_yields_its_fragment() {
    assert_eq!(
        decode_line(b"data: {\"choices\":[{\"delta\":{\"content\":\"Hi\"}}]}"),
        vec![fragment("Hi")]
    );
}

#[test]
fn terminator_line_yields_the_end() {
    assert_eq!(decode_line(b"data: [DONE]"), vec![StreamEvent::End]);
    assert_eq!(decode_line(b"data: [DONE]\r"), vec![StreamEvent::End]);
}

#[test]
fn other_lines_yield_nothing() {
    assert_eq!(decode_line(b""), vec![]);
    assert_eq!(decode_line(b"\r"), vec![]);
    assert_eq!(decode_line(b": comment"), vec![]);
    assert_eq!(decode_line(b"event: message"), vec![]);
    assert_eq!(decode_line(b"data:{\"choices\":[]}"), vec![]);
    assert_eq!(decode_line(b"data: [DONE] "), vec![]);
    assert_eq!(decode_line(b" data: [DONE]"), vec![]);
    assert_eq!(decode_line(b"data: "), vec![]);
    assert_eq!(decode_line(b"data"), vec![]);
}

#[test]
fn carriage_return_is_not_part_of_the_line() {
    assert_eq!(
        decode_line(b"data: {\"choices\":[{\"delta\":{\"content\":\"Hi\"}}]}\r"),
        vec![fragment("Hi")]
    );
    assert_eq!(
        feed_in_chunks(&[b"data: {\"choices\":[{\"delta\":{\"content\":\"Hi\"}}]}\r\n\r\ndata: [DONE]\r\n\r\n"]),
        vec![fragment("Hi"), StreamEvent::End]
    );
}

#[test]
fn payload_with_content_and_finish_yields_both_in_order() {
    assert_eq!(
        decode_payload(b"{\"choices\":[{\"delta\":{\"content\":\"bye\"},\"finish_reason\":\"stop\"}]}"),
        vec![fragment("bye"), StreamEvent::End]
    );
}

#[test]
fn payload_with_finish_alone_yields_the_end() {
    assert_eq!(
        decode_payload(b"{\"choices\":[{\"delta\":{},\"finish_reason\":\"length\"}]}"),
        vec![StreamEvent::End]
    );
    assert_eq!(
        decode_payload(b"{\"choices\":[{\"delta\":{\"content\":null},\"finish_reason\":\"stop\"}]}"),
        vec![StreamEvent::End]
    );
}

#[test]
fn payload_with_empty_content_yields_an_empty_fragment() {
    assert_eq!(
        decode_payload(b"{\"choices\":[{\"delta\":{\"content\":\"\"}}]}"),
        vec![fragment("")]
    );
}

#[test]
fn payload_reads_the_first_choice_only() {
    assert_eq!(
        decode_payload(
            b"{\"choices\":[{\"delta\":{\"content\":\"a\"}},{\"delta\":{\"content\":\"b\"},\"finish_reason\":\"stop\"}]}"
        ),
        vec![fragment("a")]
    );
}

#[test]
fn payload_ignores_members_of_other_names() {
    assert_eq!(
        decode_payload(
            b"{\"id\":\"x\",\"model\":\"gpt-4o\",\"choices\":[{\"index\":0,\"delta\":{\"role\":\"assistant\",\"content\":\"Hi\"},\"logprobs\":null,\"finish_reason\":null}],\"usage\":null}"
        ),
        vec![fragment("Hi")]
    );
}

#[test]
fn payload_without_choices_yields_nothing() {
    assert_eq!(decode_payload(b"{\"choices\":[]}"), vec![]);
}

#[test]
fn payload_of_another_shape_yields_nothing() {
    assert_eq!(decode_payload(b""), vec![]);
    assert_eq!(decode_payload(b"{"), vec![]);
    assert_eq!(decode_payload(b"[DONE]"), vec![]);
    assert_eq!(decode_payload(b"null"), vec![]);
    assert_eq!(decode_payload(b"\"text\""), vec![]);
    assert_eq!(decode_payload(b"{}"), vec![]);
    assert_eq!(decode_payload(b"{\"choices\":null}"), vec![]);
    assert_eq!(decode_payload(b"{\"choices\":{}}"), vec![]);
    assert_eq!(decode_payload(b"{\"choices\":[{}]}"), vec![]);
    assert_eq!(decode_payload(b"{\"choices\":[{\"delta\":null}]}"), vec![]);
    assert_eq!(decode_payload(b"{\"choices\":[{\"delta\":\"x\"}]}"), vec![]);
    assert_eq!(decode_payload(b"{\"choices\":[{\"delta\":{\"content\":1}}]}"), vec![]);
    assert_eq!(
        decode_payload(b"{\"choices\":[{\"delta\":{\"content\":\"x\"},\"finish_reason\":7}]}"),
        vec![]
    );
    assert_eq!(
        decode_payload(b"{\"choices\":[{\"delta\":{\"content\":\"x\"}},{\"delta\":3}]}"),
        vec![]
    );
    assert_eq!(decode_payload(b"{\"choices\":[{\"delta\":{\"content\":\"x\"}}]} trailing"), vec![]);
}

#[test]
fn payload_with_escapes_is_unescaped() {
    assert_eq!(
        decode_payload(b"{\"choices\":[{\"delta\":{\"content\":\"a\\nb \\u00e9 \\\"q\\\"\"}}]}"),
        vec![fragment("a\nb \u{e9} \"q\"")]
    );
}

#[test]
fn events_of_a_delta() {
    assert_eq!(events_of_delta(Delta { content: None, finished: false }), vec![]);
    assert_eq!(
        events_of_delta(Delta { content: Some("x".to_string()), finished: false }),
        vec![fragment("x")]
    );
    assert_eq!(
        events_of_delta(Delta { content: None, finished: true }),
        vec![StreamEvent::End]
    );
    assert_eq!(
        events_of_delta(Delta { content: Some("x".to_string()), finished: true }),
        vec![fragment("x"), StreamEvent::End]
    );
}

#[test]
fn decoder_yields_fragments_then_one_end() {
    let events = feed_in_chunks(&[HI, BANG, DONE]);
    assert_eq!(events, vec![fragment("Hi"), fragment("!"), StreamEvent::End]);
}

#[test]
fn decoder_keeps_a_line_across_chunks() {
    let mut decoder = SseDecoder::new();
    assert_eq!(decoder.feed(b"data: {\"choices\":[{\"del"), vec![]);
    assert!(!decoder.ended());
    assert_eq!(decoder.feed(b"ta\":{\"content\":\"Hi\"}}]}"), vec![]);
    assert_eq!(decoder.feed(b"\n"), vec![fragment("Hi")]);
    assert_eq!(decoder.feed(b"\ndata: [DO"), vec![]);
    assert!(!decoder.ended());
    assert_eq!(decoder.feed(b"NE]\n"), vec![StreamEvent::End]);
    assert!(decoder.ended());
    assert_eq!(decoder.close(), vec![]);
}

#[test]
fn decoder_gives_the_same_events_for_every_cut() {
    let mut bytes = Vec::new();
    bytes.extend_from_slice(HI);
    bytes.extend_from_slice(b": ping\n");
    bytes.extend_from_slice(BANG);
    bytes.extend_from_slice(DONE);
    let expected = vec![fragment("Hi"), fragment("!"), StreamEvent::End];
    for first in 0..=bytes.len() {
        for second in first..=bytes.len() {
            let events = feed_in_chunks(&[&bytes[..first], &bytes[first..second], &bytes[second..]]);
            assert_eq!(events, expected, "cuts at {} and {}", first, second);
        }
    }
}

#[test]
fn decoder_splits_a_multibyte_character_across_chunks() {
    let line = "data: {\"choices\":[{\"delta\":{\"content\":\"caf\u{e9} \u{1f600}\"}}]}\n".as_bytes();
    for cut in 0..=line.len() {
        let events = feed_in_chunks(&[&line[..cut], &line[cut..], DONE]);
        assert_eq!(events, vec![fragment("caf\u{e9} \u{1f600}"), StreamEvent::End]);
    }
}

#[test]
fn decoder_reads_nothing_after_the_end() {
    let mut decoder = SseDecoder::new();
    assert_eq!(decoder.feed(DONE), vec![StreamEvent::End]);
    assert!(decoder.ended());
    assert_eq!(decoder.feed(HI), vec![]);
    assert_eq!(decoder.feed(DONE), vec![]);
    assert_eq!(decoder.feed(b"data: {\"choices\""), vec![]);
    assert_eq!(decoder.close(), vec![]);

    let events = feed_in_chunks(&[HI, DONE, BANG, DONE]);
    assert_eq!(events, vec![fragment("Hi"), StreamEvent::End]);
}

#[test]
fn decoder_skips_malformed_lines() {
    let clean = feed_in_chunks(&[HI, BANG, DONE]);
    let noisy = feed_in_chunks(&[
        b"data: {broken\n",
        HI,
        b"data: {\"choices\":\"none\"}\n",
        b"data: \xff\xfe\n",
        BANG,
        b"data: {\"choices\":[{\"delta\":7}]}\n",
        DONE,
    ]);
    assert_eq!(noisy, clean);
    assert_eq!(clean, vec![fragment("Hi"), fragment("!"), StreamEvent::End]);
}

#[test]
fn decoder_reads_the_last_line_at_close() {
    let mut decoder = SseDecoder::new();
    assert_eq!(decoder.feed(b"data: {\"choices\":[{\"delta\":{\"content\":\"tail\"}}]}"), vec![]);
    assert_eq!(decoder.close(), vec![fragment("tail")]);
}

#[test]
fn decoder_without_input_yields_nothing() {
    let decoder = SseDecoder::new();
    assert!(!decoder.ended());
    assert_eq!(decoder.close(), vec![]);
    assert_eq!(feed_in_chunks(&[b"", b""]), vec![]);
}
