use lmoclient::error::{ClientError, HttpFailure};
use lmoclient::json::parse_json;
use lmoclient::streaming::{
    decode_choice, decode_chunk, decode_delta, decode_payload, parse_sse_buffer, parse_sse_chunk,
    parse_sse_lines, read_transport_item, scan_chat_lines, ChatCompletionStream, TransportItem,
};

const HELLO: &str = r#"data: {"id":"test","object":"chat.completion.chunk","created":123,"model":"test","choices":[{"index":0,"delta":{"content":"Hello"},"finish_reason":null}]}"#;

#[test]
fn test_parse_sse_chunk() {
    let sse_data = r#"data: {"id":"test","object":"chat.completion.chunk","created":123,"model":"test","choices":[{"index":0,"delta":{"content":"Hello"},"finish_reason":null}]}"#;
    let chunk = parse_sse_chunk(sse_data).unwrap();

    assert!(!chunk.is_done);
    assert!(chunk.chunk.is_some());
}

#[test]
fn test_parse_sse_done() {
    let sse_data = "data: [DONE]";
    let chunk = parse_sse_chunk(sse_data).unwrap();

    assert!(chunk.is_done);
    assert!(chunk.chunk.is_none());
}

#[test]
fn test_parse_sse_empty() {
    let chunk = parse_sse_chunk("").unwrap();

    assert!(!chunk.is_done);
    assert!(chunk.chunk.is_none());
}

#[test]
fn test_parse_sse_invalid_json() {
    let sse_data = "data: invalid json";
    let chunk = parse_sse_chunk(sse_data).unwrap();

    assert!(!chunk.is_done);
    assert!(chunk.chunk.is_none());
}

#[test]
fn test_parse_sse_buffer() {
    let buffer = r#"data: {"id":"test","object":"chat.completion.chunk","created":123,"model":"test","choices":[{"index":0,"delta":{"content":"Hello"},"finish_reason":null}]}

data: {"id":"test","object":"chat.completion.chunk","created":123,"model":"test","choices":[{"index":0,"delta":{"content":" World"},"finish_reason":null}]}

data: [DONE]"#;

    let chunks = parse_sse_buffer(buffer);
    assert_eq!(chunks.len(), 3);

    // First chunk
    let chunk1 = chunks[0].as_ref().unwrap();
    assert!(!chunk1.is_done);
    assert!(chunk1.chunk.is_some());

    // Last chunk
    let chunk3 = chunks[2].as_ref().unwrap();
    assert!(chunk3.is_done);
}

#[test]
fn parsed_chunk_holds_every_field() {
    let text = r#"data: {"id":"c1","object":"chat.completion.chunk","created":18446744073709551615,"model":"m","extra":[1,2],"choices":[{"index":4294967295,"delta":{"role":"assistant","content":"Hé"},"finish_reason":"stop"},{"index":1,"delta":{}}]}"#;
    let parsed = parse_sse_chunk(text).unwrap();
    assert_eq!(parsed.raw, text);
    let chunk = parsed.chunk.unwrap();
    assert_eq!(chunk.id, "c1");
    assert_eq!(chunk.object, "chat.completion.chunk");
    assert_eq!(chunk.created, u64::MAX);
    assert_eq!(chunk.model, "m");
    assert_eq!(chunk.choices.len(), 2);
    assert_eq!(chunk.choices[0].index, u32::MAX);
    assert_eq!(chunk.choices[0].delta.role, Some("assistant".to_string()));
    assert_eq!(chunk.choices[0].delta.content, Some("Hé".to_string()));
    assert_eq!(chunk.choices[0].finish_reason, Some("stop".to_string()));
    assert_eq!(chunk.choices[1].index, 1);
    assert_eq!(chunk.choices[1].delta.role, None);
    assert_eq!(chunk.choices[1].delta.content, None);
    assert_eq!(chunk.choices[1].finish_reason, None);
}

#[test]
fn payloads_that_hold_no_delta() {
    let cases = [
        "",
        "ping",
        "[]",
        "null",
        "{",
        r#"{"object":"o","created":1,"model":"m","choices":[]}"#,
        r#"{"id":1,"object":"o","created":1,"model":"m","choices":[]}"#,
        r#"{"id":null,"object":"o","created":1,"model":"m","choices":[]}"#,
        r#"{"id":"i","object":"o","created":-1,"model":"m","choices":[]}"#,
        r#"{"id":"i","object":"o","created":1.5,"model":"m","choices":[]}"#,
        r#"{"id":"i","object":"o","created":"1","model":"m","choices":[]}"#,
        r#"{"id":"i","object":"o","created":1,"model":"m"}"#,
        r#"{"id":"i","object":"o","created":1,"model":"m","choices":{}}"#,
        r#"{"id":"i","object":"o","created":1,"model":"m","choices":[1]}"#,
        r#"{"id":"i","object":"o","created":1,"model":"m","choices":[{"delta":{}}]}"#,
        r#"{"id":"i","object":"o","created":1,"model":"m","choices":[{"index":0}]}"#,
        r#"{"id":"i","object":"o","created":1,"model":"m","choices":[{"index":4294967296,"delta":{}}]}"#,
        r#"{"id":"i","object":"o","created":1,"model":"m","choices":[{"index":0,"delta":[]}]}"#,
        r#"{"id":"i","object":"o","created":1,"model":"m","choices":[{"index":0,"delta":{"role":1}}]}"#,
        r#"{"id":"i","object":"o","created":1,"model":"m","choices":[{"index":0,"delta":{"content":false}}]}"#,
        r#"{"id":"i","object":"o","created":1,"model":"m","choices":[{"index":0,"delta":{},"finish_reason":0}]}"#,
        r#"{"id":"i","object":"o","created":1,"model":"m","choices":[{"index":0,"delta":{}},{"index":"1","delta":{}}]}"#,
    ];
    for payload in cases {
        assert!(decode_payload(payload).is_none(), "{}", payload);
    }
}

#[test]
fn payloads_that_hold_a_delta() {
    let plain = decode_payload(r#"{"id":"i","object":"o","created":0,"model":"m","choices":[]}"#)
        .unwrap();
    assert_eq!(plain.created, 0);
    assert!(plain.choices.is_empty());
    let spaced = decode_payload(
        " \n{\"id\":\"i\",\"object\":\"o\",\"created\":7,\"model\":\"m\",\"choices\":[{\"index\":2,\"delta\":{\"role\":null,\"content\":\"\"},\"finish_reason\":null}]} ",
    )
    .unwrap();
    assert_eq!(spaced.created, 7);
    assert_eq!(spaced.choices[0].index, 2);
    assert_eq!(spaced.choices[0].delta.role, None);
    assert_eq!(spaced.choices[0].delta.content, Some(String::new()));
    assert_eq!(spaced.choices[0].finish_reason, None);
}

#[test]
fn decoders_read_json_values() {
    let delta = parse_json(r#"{"role":"user","content":"hi","more":1}"#).unwrap();
    let d = decode_delta(&delta).unwrap();
    assert_eq!(d.role, Some("user".to_string()));
    assert_eq!(d.content, Some("hi".to_string()));
    assert!(decode_delta(&parse_json("\"x\"").unwrap()).is_none());
    assert!(decode_delta(&parse_json("[]").unwrap()).is_none());
    let choice = parse_json(r#"{"index":3,"delta":{"content":"c"}}"#).unwrap();
    let c = decode_choice(&choice).unwrap();
    assert_eq!(c.index, 3);
    assert_eq!(c.delta.content, Some("c".to_string()));
    assert_eq!(c.finish_reason, None);
    assert!(decode_choice(&parse_json("3").unwrap()).is_none());
    assert!(decode_chunk(&parse_json("true").unwrap()).is_none());
    let chunk =
        parse_json(r#"{"choices":[],"model":"m","created":5,"object":"o","id":"i"}"#).unwrap();
    assert_eq!(decode_chunk(&chunk).unwrap().id, "i");
}

#[test]
fn scan_keeps_the_last_payload_before_done() {
    assert_eq!(scan_chat_lines(""), (String::new(), false));
    assert_eq!(scan_chat_lines("data: a"), ("a".to_string(), false));
    assert_eq!(scan_chat_lines("data: a\ndata: b"), ("b".to_string(), false));
    assert_eq!(scan_chat_lines("data: a\ndata: [DONE]\ndata: b"), ("a".to_string(), true));
    assert_eq!(scan_chat_lines("  data: a  \r\n\tdata: [DONE] "), ("a".to_string(), true));
    assert_eq!(scan_chat_lines("data:a"), (String::new(), false));
    assert_eq!(scan_chat_lines("data: "), (String::new(), false));
    assert_eq!(scan_chat_lines("data:  x"), (" x".to_string(), false));
    assert_eq!(scan_chat_lines("event: message\ndata: a"), ("a".to_string(), false));
    assert_eq!(scan_chat_lines("event: data: a"), (String::new(), false));
    assert_eq!(scan_chat_lines("data: [done]"), ("[done]".to_string(), false));
    assert_eq!(scan_chat_lines("data: [DONE]x"), ("[DONE]x".to_string(), false));
    assert_eq!(scan_chat_lines("\u{3000}data: a\u{a0}"), ("a".to_string(), false));
}

#[test]
fn done_chunk_is_terminal_and_carries_no_delta() {
    let text = format!("{}\ndata: [DONE]\n{}", HELLO, HELLO);
    let chunk = parse_sse_chunk(&text).unwrap();
    assert!(chunk.is_done);
    assert!(chunk.chunk.is_none());
    assert_eq!(chunk.raw, text);
}

#[test]
fn heartbeat_and_keep_alive_carry_no_delta() {
    for text in ["event: heartbeat\ndata: ping", "data: keep-alive", ": ping", ":\n"] {
        let chunk = parse_sse_chunk(text).unwrap();
        assert!(chunk.chunk.is_none());
        assert!(!chunk.is_done);
        assert_eq!(chunk.raw, text);
    }
}

#[test]
fn later_payload_replaces_earlier_one() {
    let text = format!("{}\ndata: nonsense", HELLO);
    assert!(parse_sse_chunk(&text).unwrap().chunk.is_none());
    let text = format!("data: nonsense\n{}", HELLO);
    assert!(parse_sse_chunk(&text).unwrap().chunk.is_some());
}

#[test]
fn buffer_blocks_of_white_space_are_passed_over() {
    assert_eq!(parse_sse_buffer("").len(), 0);
    assert_eq!(parse_sse_buffer("\n\n\n\n").len(), 0);
    assert_eq!(parse_sse_buffer(" \n\n \t\n\n").len(), 0);
    let chunks = parse_sse_buffer("data: a\n\n\n\ndata: [DONE]\n\ndata: b\n\n");
    assert_eq!(chunks.len(), 3);
    assert_eq!(chunks[0].as_ref().unwrap().raw, "data: a");
    assert!(!chunks[0].as_ref().unwrap().is_done);
    assert_eq!(chunks[1].as_ref().unwrap().raw, "data: [DONE]");
    assert!(chunks[1].as_ref().unwrap().is_done);
    assert_eq!(chunks[2].as_ref().unwrap().raw, "data: b");
    let odd = parse_sse_buffer("data: a\n\n\ndata: b");
    assert_eq!(odd.len(), 2);
    assert_eq!(odd[1].as_ref().unwrap().raw, "\ndata: b");
}

fn failure(message: &str) -> HttpFailure {
    HttpFailure { message: message.to_string(), is_timeout: false, is_connect: true, status: None }
}

fn data_line(content: &str) -> String {
    format!(
        "data: {{\"id\":\"i\",\"object\":\"o\",\"created\":1,\"model\":\"m\",\"choices\":[{{\"index\":0,\"delta\":{{\"content\":\"{}\"}}}}]}}",
        content
    )
}

fn content_chunk(content: &str) -> TransportItem {
    Ok(format!("{}\n\n", data_line(content)).into_bytes())
}

fn content(chunk: &lmoclient::streaming::StreamChunk) -> Option<&str> {
    chunk.chunk.as_ref()?.choices.first()?.delta.content.as_deref()
}

#[test]
fn every_data_line_gives_a_chunk() {
    let text = format!(
        "event: message\n{}\n\n  {}  \r\ndata: nonsense\n: comment\ndata:\ndata: [DONE]\n{}\n",
        data_line("a"),
        data_line("b"),
        data_line("c")
    );
    let chunks = parse_sse_lines(&text);
    assert_eq!(chunks.len(), 4);
    assert_eq!(content(&chunks[0]), Some("a"));
    assert_eq!(chunks[0].raw, data_line("a"));
    assert_eq!(content(&chunks[1]), Some("b"));
    assert_eq!(chunks[1].raw, format!("  {}  ", data_line("b")));
    assert!(chunks[2].chunk.is_none());
    assert_eq!(chunks[2].raw, "data: nonsense");
    assert!(chunks[..3].iter().all(|c| !c.is_done));
    assert!(chunks[3].is_done);
    assert!(chunks[3].chunk.is_none());
    assert_eq!(chunks[3].raw, "data: [DONE]");
}

#[test]
fn text_without_data_lines_gives_no_chunk() {
    for text in ["", "\n\n", ": keep-alive\n\n", "event: heartbeat\n", "data:x", "nonsense"] {
        assert!(parse_sse_lines(text).is_empty(), "{:?}", text);
    }
}

#[test]
fn heartbeat_line_gives_a_chunk_without_delta() {
    for text in ["event: heartbeat\ndata: ping\n\n", "data: keep-alive\n\n"] {
        let chunks = parse_sse_lines(text);
        assert_eq!(chunks.len(), 1);
        assert!(chunks[0].chunk.is_none());
        assert!(!chunks[0].is_done);
    }
}

#[test]
fn transport_items_are_read() {
    let ok = read_transport_item(&Ok(b"data: [DONE]\n\n".to_vec()));
    assert_eq!(ok.len(), 1);
    assert!(ok[0].as_ref().unwrap().is_done);
    assert_eq!(ok[0].as_ref().unwrap().raw, "data: [DONE]");
    let failed = read_transport_item(&Err(failure("refused")));
    assert_eq!(failed.len(), 1);
    assert_eq!(failed[0].as_ref().unwrap_err(), &ClientError::HttpError(failure("refused")));
    let two = read_transport_item(&Ok(format!("{}\n{}", data_line("a"), data_line("b")).into_bytes()));
    assert_eq!(two.len(), 2);
    assert_eq!(content(two[1].as_ref().unwrap()), Some("b"));
    assert!(read_transport_item(&Ok(b": ping\n\n".to_vec())).is_empty());
}

#[test]
fn bytes_that_are_no_text_are_read_with_replacements() {
    let chunks = read_transport_item(&Ok(vec![b'd', b'a', b't', b'a', b':', b' ', 0xff, b'a']));
    assert_eq!(chunks.len(), 1);
    assert_eq!(chunks[0].as_ref().unwrap().raw, "data: \u{fffd}a");
    let sound = read_transport_item(&Ok("data: é".as_bytes().to_vec()));
    assert_eq!(sound[0].as_ref().unwrap().raw, "data: é");
}

#[test]
fn next_reads_items_in_order() {
    let mut stream = ChatCompletionStream::new(vec![
        content_chunk("a"),
        Ok(b": keep-alive\n\n".to_vec()),
        Err(failure("x")),
        Ok(format!("{}\n{}\n", data_line("b"), data_line("c")).into_bytes()),
        Ok(b"data: [DONE]".to_vec()),
    ]);
    assert_eq!(content(&stream.next().unwrap().unwrap()), Some("a"));
    assert_eq!(stream.next().unwrap().unwrap_err(), ClientError::HttpError(failure("x")));
    assert_eq!(content(&stream.next().unwrap().unwrap()), Some("b"));
    assert_eq!(content(&stream.next().unwrap().unwrap()), Some("c"));
    assert!(stream.next().unwrap().unwrap().is_done);
    assert!(stream.next().is_none());
    assert!(stream.next().is_none());
}

#[test]
fn collect_stops_at_the_terminal_chunk() {
    let stream = ChatCompletionStream::new(vec![
        content_chunk("a"),
        Ok(b"data: [DONE]".to_vec()),
        content_chunk("b"),
        Err(failure("late")),
    ]);
    let chunks = stream.collect().unwrap();
    assert_eq!(chunks.len(), 2);
    assert!(!chunks[0].is_done);
    assert!(chunks[1].is_done);
    assert!(chunks[1].chunk.is_none());
}

#[test]
fn nothing_is_read_behind_the_terminal_chunk() {
    let mut stream = ChatCompletionStream::new(vec![
        content_chunk("a"),
        Ok(format!("data: [DONE]\n{}", data_line("lost")).into_bytes()),
        content_chunk("b"),
    ]);
    let chunks = stream.pull_until_done().unwrap();
    assert_eq!(chunks.len(), 2);
    assert_eq!(chunks.iter().filter(|c| c.is_done).count(), 1);
    let next = stream.next().unwrap().unwrap();
    assert_eq!(content(&next), Some("b"));
    assert!(stream.next().is_none());
}

#[test]
fn collect_without_terminal_chunk_takes_everything() {
    let stream = ChatCompletionStream::new(vec![content_chunk("a"), content_chunk("b")]);
    assert_eq!(stream.collect().unwrap().len(), 2);
    assert_eq!(ChatCompletionStream::new(vec![]).collect().unwrap().len(), 0);
}

#[test]
fn collect_hands_out_the_first_failure() {
    let stream = ChatCompletionStream::new(vec![
        content_chunk("a"),
        Err(failure("first")),
        Err(failure("second")),
    ]);
    assert_eq!(stream.collect().unwrap_err(), ClientError::HttpError(failure("first")));
    let stream =
        ChatCompletionStream::new(vec![Ok(b"data: [DONE]".to_vec()), Err(failure("late"))]);
    assert_eq!(stream.collect().unwrap().len(), 1);
}

#[test]
fn collect_text_joins_the_content() {
    let stream = ChatCompletionStream::new(vec![
        content_chunk("Hello"),
        Ok(b"data: nonsense".to_vec()),
        Ok(b": keep-alive\n\n".to_vec()),
        Ok(format!("{}\n\n{}\n\n", data_line(","), data_line(" world")).into_bytes()),
        Ok(b"data: [DONE]".to_vec()),
        content_chunk("!"),
    ]);
    assert_eq!(stream.collect_text().unwrap(), "Hello, world");
    assert_eq!(ChatCompletionStream::new(vec![]).collect_text().unwrap(), "");
}

#[test]
fn collect_text_takes_the_first_choice_only() {
    let two = r#"data: {"id":"i","object":"o","created":1,"model":"m","choices":[{"index":0,"delta":{"content":"a"}},{"index":1,"delta":{"content":"b"}}]}"#;
    let none = r#"data: {"id":"i","object":"o","created":1,"model":"m","choices":[]}"#;
    let role = r#"data: {"id":"i","object":"o","created":1,"model":"m","choices":[{"index":0,"delta":{"role":"assistant"}}]}"#;
    let stream = ChatCompletionStream::new(vec![
        Ok(two.as_bytes().to_vec()),
        Ok(none.as_bytes().to_vec()),
        Ok(role.as_bytes().to_vec()),
    ]);
    assert_eq!(stream.collect_text().unwrap(), "a");
}

#[test]
fn collect_text_hands_out_the_first_failure() {
    let stream = ChatCompletionStream::new(vec![content_chunk("a"), Err(failure("f"))]);
    assert_eq!(stream.collect_text().unwrap_err(), ClientError::HttpError(failure("f")));
}
