use codex_proxy::json::{parse_json, to_value, Json};
use codex_proxy::streaming::accumulator::ResponseOutputAccumulator;
use codex_proxy::streaming::chunks::{make_data_line, map_response_event_to_chat_chunk};
use codex_proxy::streaming::message::response_to_chat_message;
use codex_proxy::streaming::sse::{find_sse_delimiter, parse_sse_frame_data, SseParser};
use codex_proxy::streaming::tool_calls::ToolStreamState;

fn json(text: &str) -> Json {
    parse_json(text).expect("valid JSON")
}

fn value(text: &str) -> serde_json::Value {
    serde_json::from_str(text).expect("valid JSON")
}

fn message(output: &str) -> serde_json::Value {
    to_value(&response_to_chat_message(Some(&json(output))))
}

fn chunk(event: &str, state: &mut ToolStreamState) -> Option<String> {
    map_response_event_to_chat_chunk(&json(event), state, "cmp-1", 1, "gpt-5.4")
}

fn delta(event: &str, state: &mut ToolStreamState) -> Option<serde_json::Value> {
    chunk(event, state).map(|line| {
        let body = line.strip_prefix("data: ").expect("a frame");
        value(body.trim_end())["choices"][0]["delta"].clone()
    })
}

#[test]
fn response_to_chat_message_includes_tool_calls() {
    let message = message(
        r#"[{"type":"message","content":[{"type":"output_text","text":"Done"}]},
            {"type":"function_call","id":"call_abc123","call_id":"call_abc123","name":"Shell",
             "arguments":"{\"command\":\"pwd\"}"}]"#,
    );

    assert_eq!(message["role"], "assistant");
    assert_eq!(message["content"], "Done");
    assert_eq!(message["tool_calls"][0]["function"]["name"], "Shell");
}

#[test]
fn reasoning_delta_maps_to_reasoning_content() {
    let mut tool_state = ToolStreamState::default();
    let line = chunk(
        r#"{"type":"response.reasoning_summary_text.delta","delta":"thinking about it"}"#,
        &mut tool_state,
    );
    let Some(line) = line else {
        panic!("reasoning delta should produce a chunk");
    };
    assert!(
        line.contains("\"reasoning_content\":\"thinking about it\""),
        "chunk missing reasoning_content: {line}"
    );
}

#[test]
fn sse_parser_extracts_data_frames() {
    let mut parser = SseParser::default();
    let events = parser.feed("event: message\ndata: {\"a\":1}\n\ndata: [DONE]\n\n");
    assert_eq!(events, vec!["{\"a\":1}".to_string(), "[DONE]".to_string()]);
}

#[test]
fn response_to_chat_message_preserves_refusal() {
    let message = message(
        r#"[{"type":"message","content":[{"type":"refusal","refusal":"I cannot do that."}]}]"#,
    );

    assert_eq!(message["content"], "I cannot do that.");
    assert_eq!(message["refusal"], "I cannot do that.");
}

#[test]
fn refusal_content_part_maps_to_chat_delta_refusal() {
    let mut tool_state = ToolStreamState::default();
    let Some(line) = chunk(
        r#"{"type":"response.content_part.added","part":{"type":"refusal","refusal":"I can't do that."}}"#,
        &mut tool_state,
    ) else {
        panic!("refusal content_part should yield a chunk");
    };
    assert!(
        line.contains("\"refusal\":\"I can't do that.\""),
        "chunk missing refusal delta: {line}"
    );
}

#[test]
fn content_part_output_text_is_not_mapped_as_refusal() {
    let mut tool_state = ToolStreamState::default();
    assert!(chunk(
        r#"{"type":"response.content_part.added","part":{"type":"output_text","text":""}}"#,
        &mut tool_state
    )
    .is_none());
}

#[test]
fn accumulator_fills_output_from_item_done_when_snapshot_empty() {
    let mut accumulator = ResponseOutputAccumulator::default();
    accumulator.observe(&json(
        r#"{"type":"response.output_item.done","item":{"type":"message","content":[{"type":"output_text","text":"Hello!"}]}}"#,
    ));
    let mut snapshot = json(r#"{"output":[]}"#);
    accumulator.finalize(&mut snapshot);
    assert_eq!(to_value(&snapshot)["output"][0]["content"][0]["text"], "Hello!");
    let message = to_value(&response_to_chat_message(snapshot.get("output")));
    assert_eq!(message["content"], "Hello!");
}

#[test]
fn accumulator_synthesizes_message_from_deltas_when_no_items() {
    let mut accumulator = ResponseOutputAccumulator::default();
    for chunk in ["Hel", "lo!"] {
        accumulator.observe(&json(&format!(
            r#"{{"type":"response.output_text.delta","delta":"{chunk}"}}"#
        )));
    }
    let mut snapshot = json("{}");
    accumulator.finalize(&mut snapshot);
    let message = to_value(&response_to_chat_message(snapshot.get("output")));
    assert_eq!(message["content"], "Hello!");
}

#[test]
fn accumulator_leaves_nonempty_snapshot_output_alone() {
    let mut accumulator = ResponseOutputAccumulator::default();
    accumulator.observe(&json(r#"{"type":"response.output_text.delta","delta":"stray"}"#));
    let mut snapshot = json(
        r#"{"output":[{"type":"message","content":[{"type":"output_text","text":"canonical"}]}]}"#,
    );
    accumulator.finalize(&mut snapshot);
    assert_eq!(to_value(&snapshot)["output"][0]["content"][0]["text"], "canonical");
}

#[test]
fn aggregate_message_annotations_preserved() {
    let message = message(
        r#"[{"type":"message","content":[{"type":"output_text","text":"see source",
            "annotations":[{"type":"url_citation","url":"https://example.com"}]}]}]"#,
    );
    assert_eq!(message["content"], "see source");
    assert_eq!(message["annotations"][0]["url"], "https://example.com");
}

#[test]
fn accumulator_settles_and_keeps_what_is_no_object() {
    let mut accumulator = ResponseOutputAccumulator::default();
    accumulator.observe(&json(r#"{"type":"response.output_text.delta","delta":"a"}"#));
    accumulator.observe(&json(r#"{"type":"response.output_item.done","item":{"type":"reasoning"}}"#));
    let mut snapshot = json("{}");
    accumulator.finalize(&mut snapshot);
    let once = to_value(&snapshot);
    assert_eq!(once, value(r#"{"output":[{"type":"reasoning"}]}"#));
    accumulator.finalize(&mut snapshot);
    assert_eq!(to_value(&snapshot), once);
    let mut text = json(r#""x""#);
    accumulator.finalize(&mut text);
    assert_eq!(to_value(&text), value(r#""x""#));
}

#[test]
fn empty_output_makes_an_empty_message() {
    assert_eq!(
        to_value(&response_to_chat_message(None)),
        value(r#"{"role":"assistant","content":null}"#)
    );
    assert_eq!(message("{}"), value(r#"{"role":"assistant","content":null}"#));
}

#[test]
fn chunk_line_is_exact() {
    let mut state = ToolStreamState::default();
    assert_eq!(
        chunk(r#"{"type":"response.output_text.delta","delta":"a\nb"}"#, &mut state),
        Some(
            "data: {\"choices\":[{\"delta\":{\"content\":\"a\\nb\"},\"finish_reason\":null,\"index\":0}],\"created\":1,\"id\":\"cmp-1\",\"model\":\"gpt-5.4\",\"object\":\"chat.completion.chunk\"}\n\n"
                .to_string()
        )
    );
    assert!(chunk(r#"{"type":"response.output_text.delta"}"#, &mut state).is_none());
    assert!(chunk(r#"{"type":"response.created"}"#, &mut state).is_none());
    assert!(chunk(r#"{}"#, &mut state).is_none());
}

#[test]
fn tool_calls_stream_with_their_ids_and_places() {
    let mut state = ToolStreamState::default();
    assert_eq!(
        delta(
            r#"{"type":"response.output_item.added","output_index":2,
                "item":{"type":"function_call","id":"fc_1","call_id":"call_1","name":"f"}}"#,
            &mut state
        ),
        Some(value(
            r#"{"tool_calls":[{"index":2,"id":"call_1","type":"function","function":{"name":"f","arguments":""}}]}"#
        ))
    );
    assert_eq!(
        delta(
            r#"{"type":"response.function_call_arguments.delta","item_id":"fc_1","delta":"{"}"#,
            &mut state
        ),
        Some(value(r#"{"tool_calls":[{"index":2,"function":{"arguments":"{"}}]}"#))
    );
    assert_eq!(
        delta(
            r#"{"type":"response.function_call_arguments.done","item_id":"fc_1","arguments":"{}"}"#,
            &mut state
        ),
        None
    );
    assert_eq!(
        delta(
            r#"{"type":"response.custom_tool_call_input.done","item_id":"ct_1","input":"x","output_index":5,
                "item":{"call_id":"call_2"}}"#,
            &mut state
        ),
        Some(value(
            r#"{"tool_calls":[{"index":5,"id":"call_2","type":"function","function":{"name":"custom_tool","arguments":"x"}}]}"#
        ))
    );
    assert_eq!(
        delta(
            r#"{"type":"response.output_item.added","item":{"type":"message"}}"#,
            &mut state
        ),
        None
    );
}

#[test]
fn items_without_a_place_are_counted() {
    let mut state = ToolStreamState::default();
    for index in 0..3 {
        let event = format!(
            r#"{{"type":"response.output_item.added","item":{{"type":"custom_tool_call","id":"i{index}"}}}}"#
        );
        let told = delta(&event, &mut state).expect("a chunk");
        assert_eq!(told["tool_calls"][0]["index"], index);
        assert_eq!(told["tool_calls"][0]["function"]["name"], "custom_tool");
    }
}

#[test]
fn long_ids_are_shortened_once_and_for_all() {
    let mut state = ToolStreamState::default();
    let long = "x".repeat(41);
    let short = state.ensure_cursor_tool_call_id(&[Some(&long), None]).expect("an id");
    assert_eq!(short.len(), 40);
    assert_eq!(short, "c3164596df4fdd018b2c567ec8c03e79bd76f4e4");
    assert!(short.starts_with('c'));
    assert!(short[1..].chars().all(|c| c.is_ascii_hexdigit() && !c.is_ascii_uppercase()));
    assert_eq!(state.ensure_cursor_tool_call_id(&[Some(&long), None]), Some(short.clone()));
    assert_eq!(state.ensure_cursor_tool_call_id(&[Some("fc_9"), Some(&long)]), Some(short.clone()));
    assert_eq!(state.ensure_cursor_tool_call_id(&[Some("fc_9"), None]), Some(short));
    assert_eq!(state.ensure_cursor_tool_call_id(&[Some(""), None]), None);
    assert_eq!(
        state.ensure_cursor_tool_call_id(&[Some(&"y".repeat(50)), Some("short")]),
        Some("short".to_string())
    );
    assert_eq!(
        state.ensure_cursor_tool_call_id(&[Some(&"z".repeat(40)), None]),
        Some("z".repeat(40))
    );
}

#[test]
fn stretches_of_a_stream_do_not_matter() {
    let stream = "data: a\r\n\r\n: note\n\nevent: x\ndata: b\ndata:  c \n\ndata: \u{e4}\n\ndata: tail";
    let mut whole = SseParser::default();
    let expected = whole.feed(stream);
    assert_eq!(expected, vec!["a", "b\nc", "\u{e4}"]);
    for cut in 0..=stream.len() {
        if !stream.is_char_boundary(cut) {
            continue;
        }
        let mut parser = SseParser::default();
        let mut events = parser.feed(&stream[..cut]);
        events.extend(parser.feed(&stream[cut..]));
        assert_eq!(events, expected, "cut at {cut}");
    }
}

#[test]
fn delimiters_and_frames_are_found() {
    assert_eq!(find_sse_delimiter("ab\n\ncd"), Some(2));
    assert_eq!(find_sse_delimiter("ab\r\n\r\ncd\n\n"), Some(2));
    assert_eq!(find_sse_delimiter("\u{e4}\n\n"), Some(2));
    assert_eq!(find_sse_delimiter("ab\n"), None);
    assert_eq!(parse_sse_frame_data("data:x"), Some("x".to_string()));
    assert_eq!(parse_sse_frame_data("data:"), Some(String::new()));
    assert_eq!(parse_sse_frame_data("id: 1\n: data: x"), None);
}

#[test]
fn written_frames_are_read_back() {
    let body = json(r#"{"text":"two\nlines\r\n\r\n","n":[null,true]}"#);
    let line = make_data_line(&body);
    let mut parser = SseParser::default();
    let events = parser.feed(&line);
    assert_eq!(events.len(), 1);
    assert_eq!(value(&events[0]), to_value(&body));
}

#[test]
fn every_id_that_clients_see_is_short() {
    let long_call = "c".repeat(64);
    let long_item = "i".repeat(64);
    let mut state = ToolStreamState::default();
    let begun = delta(
        &format!(
            r#"{{"type":"response.output_item.added","output_index":0,
                "item":{{"type":"function_call","id":"{long_item}","call_id":"{long_call}","name":"f"}}}}"#
        ),
        &mut state,
    )
    .expect("a chunk");
    let id = begun["tool_calls"][0]["id"].as_str().expect("an id").to_string();
    assert_eq!(id.len(), 40);
    let done = delta(
        &format!(
            r#"{{"type":"response.function_call_arguments.done","item_id":"{long_item}","arguments":"{{}}"}}"#
        ),
        &mut state,
    )
    .expect("a chunk");
    assert_eq!(done["tool_calls"][0]["id"], id.as_str());
    let told = message(&format!(
        r#"[{{"type":"function_call","id":"{long_item}","call_id":"{long_call}","name":"f"}}]"#
    ));
    assert_eq!(told["tool_calls"][0]["id"], id.as_str());
}

#[test]
fn tool_call_keeps_its_id_behind_a_new_one() {
    let mut state = ToolStreamState::default();
    assert_eq!(state.ensure_cursor_tool_call_id(&[Some("a"), None]).as_deref(), Some("a"));
    assert_eq!(state.ensure_cursor_tool_call_id(&[Some("b"), Some("a")]).as_deref(), Some("a"));
    assert_eq!(state.ensure_cursor_tool_call_id(&[Some("b"), None]).as_deref(), Some("a"));
    assert_eq!(state.ensure_cursor_tool_call_id(&[Some("c"), None]).as_deref(), Some("c"));
}
