use ollama_stream::decoder::{context_bytes_of, decode_chunk, decode_line, decode_text, DecodedEvent};

fn token(s: &str) -> DecodedEvent {
    DecodedEvent::Token(s.to_string())
}

#[test]
fn three_line_chunk_yields_events_in_order() {
    let chunk = b"{\"response\":\"Hi\"}\n{\"response\":\" there\",\"context\":[1,2,3]}\n{\"done\":true}\n";
    let evs = decode_chunk(chunk);
    assert_eq!(
        evs,
        vec![
            token("Hi"),
            token(" there"),
            DecodedEvent::ContextUpdate(vec![1, 2, 3]),
            DecodedEvent::Complete,
        ]
    );
}

#[test]
fn line_with_no_recognized_field_yields_nothing() {
    assert_eq!(decode_line("{\"model\":\"llama\",\"done\":false}"), vec![]);
    assert_eq!(decode_chunk(b"{\"eval_count\":12}\n"), vec![]);
}

#[test]
fn one_line_may_carry_several_signals() {
    let evs = decode_line("{\"done\":true,\"context\":[9],\"response\":\"!\"}");
    assert_eq!(
        evs,
        vec![token("!"), DecodedEvent::ContextUpdate(vec![9]), DecodedEvent::Complete]
    );
}

#[test]
fn unparseable_line_is_reported_not_fatal() {
    let evs = decode_text("not json\n{\"response\":\"ok\"}");
    assert_eq!(evs, vec![DecodedEvent::Unparseable("not json".to_string()), token("ok")]);
}

#[test]
fn blank_lines_are_skipped_and_lines_trimmed() {
    let evs = decode_text("\n   \n  {\"response\":\"a\"}  \r\n\n");
    assert_eq!(evs, vec![token("a")]);
}

#[test]
fn empty_chunk_yields_nothing() {
    assert_eq!(decode_chunk(b""), vec![]);
}

#[test]
fn invalid_utf8_chunk_is_dropped_whole() {
    let mut chunk = b"{\"response\":\"a\"}\n".to_vec();
    chunk.push(0xff);
    assert_eq!(decode_chunk(&chunk), vec![]);
}

#[test]
fn line_split_across_chunks_is_not_reassembled() {
    // Known limitation: no partial line is carried from one chunk to the next.
    let first = decode_chunk(b"{\"response\":");
    let second = decode_chunk(b"\"x\"}\n");
    assert_eq!(first, vec![DecodedEvent::Unparseable("{\"response\":".to_string())]);
    assert_eq!(second, vec![DecodedEvent::Unparseable("\"x\"}".to_string())]);
}

#[test]
fn done_false_and_non_string_response_are_ignored() {
    assert_eq!(decode_line("{\"response\":5,\"done\":false}"), vec![]);
}

#[test]
fn context_items_keep_unsigned_integers_modulo_256() {
    let evs = decode_line("{\"context\":[1,256,257,-1,\"x\",2.5,300]}");
    assert_eq!(evs, vec![DecodedEvent::ContextUpdate(vec![1, 0, 1, 44])]);
    assert_eq!(context_bytes_of(&vec![Some(511), None, Some(7)]), vec![255, 7]);
}

#[test]
fn empty_context_array_is_an_update_to_empty() {
    assert_eq!(decode_line("{\"context\":[]}"), vec![DecodedEvent::ContextUpdate(vec![])]);
}

#[test]
fn multibyte_text_is_split_on_newlines() {
    let evs = decode_chunk("{\"response\":\"héllo\"}\n{\"response\":\"日本\"}".as_bytes());
    assert_eq!(evs, vec![token("héllo"), token("日本")]);
}
