use codex_proxy::json::{parse_json, to_value, Json};
use codex_proxy::responses::aggregate::{make_chat_completion, ChatAggregate, ResponseAggregate};
use codex_proxy::responses::relay::{
    model_of_request, response_output_indicates_tool_calls, wants_stream, ChatRelay, ChunkHead,
    PassthroughRelay,
};
use codex_proxy::responses::session::{
    prepare_ws_request, read_ws_message, take_ws_message, ws_error, ws_failure, WsFailure, WsRelay,
    WsSessionState,
};

const COMPLETED: &str = "data: {\"type\":\"response.completed\",\"response\":{\"status\":\"completed\",\"output\":[{\"type\":\"message\",\"content\":[{\"type\":\"output_text\",\"text\":\"hello\"}]}],\"usage\":{\"input_tokens\":5,\"output_tokens\":7,\"total_tokens\":12}}}\n\n";

fn json(text: &str) -> Json {
    parse_json(text).expect("valid JSON")
}

fn value(text: &str) -> serde_json::Value {
    serde_json::from_str(text).expect("valid JSON")
}

fn head(include_usage: bool) -> ChunkHead {
    ChunkHead {
        chunk_id: "chatcmpl-1".to_string(),
        created: 9,
        model: "gpt-5.4".to_string(),
        include_usage,
    }
}

fn body(frame: &str) -> serde_json::Value {
    value(frame.strip_prefix("data: ").expect("a frame").trim_end())
}

#[test]
fn non_streaming_responses_route_aggregates_completed_response() {
    let mut aggregate = ResponseAggregate::new();
    aggregate.feed(COMPLETED.as_bytes());
    aggregate.feed(b"data: [DONE]\n\n");
    assert!(aggregate.is_complete());
    let json = to_value(&aggregate.outcome().ok().expect("a response"));
    assert_eq!(json["status"], "completed");
    assert_eq!(json["usage"]["output_tokens"], 7);
}

#[test]
fn websocket_append_merges_prior_input_and_output_when_previous_id_missing() {
    let session_state = WsSessionState {
        last_request: Some(json(
            r#"{"model":"gpt-5.4","instructions":"Keep it terse",
                "input":[{"role":"user","content":[{"type":"input_text","text":"hello"}]}]}"#,
        )),
        last_response_output: Some(json(
            r#"[{"type":"message","role":"assistant","content":[{"type":"output_text","text":"hi"}]}]"#,
        )),
    };
    let request = json(
        r#"{"type":"response.append",
            "input":[{"role":"user","content":[{"type":"input_text","text":"again"}]}]}"#,
    );

    let prepared = prepare_ws_request(&session_state, request, "response.append")
        .ok()
        .expect("append should prepare successfully");

    let prepared = to_value(&prepared);
    assert_eq!(prepared["model"], "gpt-5.4");
    assert_eq!(prepared["instructions"], "Keep it terse");
    assert_eq!(prepared["input"].as_array().map(Vec::len), Some(3));
    assert_eq!(prepared["input"][0]["content"][0]["text"], "hello");
    assert_eq!(prepared["input"][1]["content"][0]["text"], "hi");
    assert_eq!(prepared["input"][2]["content"][0]["text"], "again");
}

#[test]
fn aggregate_counts_what_comes_before_the_response() {
    let mut aggregate = ResponseAggregate::new();
    let first = "data: {\"type\":\"response.created\"}\n\ndata: no json\n\ndata: [DO";
    aggregate.feed(first.as_bytes());
    assert!(!aggregate.is_complete());
    aggregate.feed(b"NE]\n\n");
    aggregate.feed(COMPLETED.as_bytes());
    aggregate.feed(b"data: {\"type\":\"late\"}\n\n");
    let bytes = first.len() + 5 + COMPLETED.len() + 23;
    assert_eq!(aggregate.counts(), (4, 3, bytes as u64));
}

#[test]
fn aggregate_fills_in_a_missing_output() {
    let mut aggregate = ResponseAggregate::new();
    aggregate.feed(b"data: {\"type\":\"response.output_text.delta\",\"delta\":\"Hel\"}\n\n");
    aggregate.feed(b"data: {\"type\":\"response.output_text.delta\",\"delta\":\"lo\"}\n\n");
    aggregate.feed(b"data: {\"type\":\"response.completed\",\"response\":{\"output\":[]}}\n\n");
    let response = to_value(&aggregate.outcome().ok().expect("a response"));
    assert_eq!(response["output"][0]["content"][0]["text"], "Hello");
}

#[test]
fn aggregate_without_a_response_is_a_bad_gateway() {
    let mut aggregate = ResponseAggregate::new();
    aggregate.feed(b"data: {\"type\":\"response.completed\"}\n\n");
    aggregate.feed(b"data: {\"type\":\"response.incomplete\",\"response\":{}}\n\n");
    let error = aggregate.outcome().err().expect("no response");
    assert_eq!(error.status, 502);
    assert_eq!(error.envelope.error.message, "Could not build final response object");
    let chat = ChatAggregate::new();
    let error = chat.outcome(&head(false)).err().expect("no response");
    assert_eq!(error.status, 502);
    assert_eq!(error.envelope.error.message, "Could not build final chat completion object");
}

#[test]
fn chat_aggregate_makes_a_completion() {
    let mut aggregate = ChatAggregate::new();
    aggregate.feed(COMPLETED.as_bytes());
    let completion = to_value(&aggregate.outcome(&head(true)).ok().expect("a completion"));
    assert_eq!(
        completion,
        value(
            r#"{"id":"chatcmpl-1","object":"chat.completion","created":9,"model":"gpt-5.4",
                "choices":[{"index":0,"message":{"role":"assistant","content":"hello"},"finish_reason":"stop"}],
                "usage":{"prompt_tokens":5,"completion_tokens":7,"total_tokens":12}}"#
        )
    );
    let plain = to_value(&aggregate.outcome(&head(false)).ok().expect("a completion"));
    assert!(plain.get("usage").is_none());
    let mut empty = ChatAggregate::new();
    empty.feed(b"data: {\"type\":\"response.output_text.delta\",\"delta\":\"Hi\"}\n\n");
    empty.feed(b"data: {\"type\":\"response.completed\",\"response\":{}}\n\n");
    let completion = to_value(&empty.outcome(&head(true)).ok().expect("a completion"));
    assert_eq!(completion["choices"][0]["message"]["content"], "Hi");
    assert_eq!(completion["usage"]["total_tokens"], 0);
}

#[test]
fn tool_calls_are_why_an_answer_ends() {
    let response = json(r#"{"output":[{"type":"custom_tool_call","id":"a","input":"i"}]}"#);
    assert!(response_output_indicates_tool_calls(Some(&response)));
    assert!(!response_output_indicates_tool_calls(Some(&json(r#"{"output":[{"type":"message"}]}"#))));
    assert!(!response_output_indicates_tool_calls(None));
    let completion = to_value(&make_chat_completion(&head(false), &response));
    assert_eq!(completion["choices"][0]["finish_reason"], "tool_calls");
    assert_eq!(completion["choices"][0]["message"]["tool_calls"][0]["id"], "a");
}

#[test]
fn passage_keeps_events_and_tells_the_end() {
    let mut relay = PassthroughRelay::new();
    assert_eq!(relay.feed(b"event: x\ndata: {\"a\":1}\n"), Vec::<String>::new());
    assert_eq!(relay.feed(b"\n"), vec!["data: {\"a\":1}\n\n".to_string()]);
    assert_eq!(relay.finish(), vec!["data: [DONE]\n\n".to_string()]);
    assert_eq!(relay.feed(b"data: [DONE]\n\n"), vec!["data: [DONE]\n\n".to_string()]);
    assert_eq!(relay.finish(), Vec::<String>::new());
}

#[test]
fn bytes_that_are_no_text_are_replaced() {
    let mut relay = PassthroughRelay::new();
    assert_eq!(relay.feed(b"data: a\xffb\n\n"), vec!["data: a\u{fffd}b\n\n".to_string()]);
}

#[test]
fn chat_relay_tells_the_whole_answer() {
    let mut relay = ChatRelay::new(head(true));
    assert_eq!(
        body(&relay.start()),
        value(
            r#"{"id":"chatcmpl-1","object":"chat.completion.chunk","created":9,"model":"gpt-5.4",
                "choices":[{"index":0,"delta":{"role":"assistant"},"finish_reason":null}]}"#
        )
    );
    let frames = relay.feed(b"data: {\"type\":\"response.output_text.delta\",\"delta\":\"Hi\"}\n\ndata: oops\n\n");
    assert_eq!(frames.len(), 1);
    assert_eq!(body(&frames[0])["choices"][0]["delta"], value(r#"{"content":"Hi"}"#));
    assert_eq!(relay.finish(), vec!["data: [DONE]\n\n".to_string()]);
    let frames = relay.feed(COMPLETED.as_bytes());
    assert_eq!(frames.len(), 2);
    assert_eq!(
        body(&frames[0]),
        value(
            r#"{"id":"chatcmpl-1","object":"chat.completion.chunk","created":9,"model":"gpt-5.4",
                "choices":[{"index":0,"delta":{},"finish_reason":"stop"}],
                "usage":{"prompt_tokens":5,"completion_tokens":7,"total_tokens":12}}"#
        )
    );
    assert_eq!(frames[1], "data: [DONE]\n\n");
    assert_eq!(relay.feed(b"data: [DONE]\n\n"), Vec::<String>::new());
    assert_eq!(relay.finish(), Vec::<String>::new());
    let mut plain = ChatRelay::new(head(false));
    let frames = plain.take_event(&json(r#"{"type":"response.completed"}"#));
    assert!(body(&frames[0]).get("usage").is_none());
    assert_eq!(frames.len(), 2);
}

#[test]
fn session_begins_with_a_create() {
    let session = WsSessionState { last_request: None, last_response_output: None };
    assert_eq!(read_ws_message(&session, "{").err(), Some("Invalid JSON"));
    assert_eq!(
        read_ws_message(&session, r#"{"type":"ping"}"#).err(),
        Some("unsupported websocket request type")
    );
    assert_eq!(
        read_ws_message(&session, r#"{"type":"response.append"}"#).err(),
        Some("response.create must be first")
    );
    assert_eq!(
        take_ws_message(&session, Some(json(r#"{"type":"response.create","model":""}"#))).err(),
        Some("missing model in response.create request")
    );
    let request = read_ws_message(&session, r#"{"type":"response.create","model":"gpt-5.4"}"#)
        .ok()
        .expect("a request");
    assert_eq!(to_value(&request), value(r#"{"model":"gpt-5.4","input":[]}"#));
}

#[test]
fn session_goes_on_from_what_it_remembers() {
    let mut session = WsSessionState { last_request: None, last_response_output: None };
    let mut relay = WsRelay::new();
    let messages = relay.feed(format!("data: x\n\n{COMPLETED}data: [DONE]\n\n").as_bytes());
    assert_eq!(messages.len(), 2);
    assert_eq!(messages[0], "x");
    relay.finish(&mut session, json(r#"{"model":"gpt-5.4","input":["a"],"instructions":"i"}"#));
    let next = read_ws_message(&session, r#"{"type":"response.append","input":["b"],"model":"own"}"#)
        .ok()
        .expect("a request");
    assert_eq!(
        to_value(&next),
        value(
            r#"{"model":"own","instructions":"i","input":["a",
                {"type":"message","content":[{"type":"output_text","text":"hello"}]},"b"]}"#
        )
    );
    let named = read_ws_message(
        &session,
        r#"{"type":"response.create","input":["b"],"previous_response_id":"resp_1"}"#,
    )
    .ok()
    .expect("a request");
    assert_eq!(to_value(&named)["input"], value(r#"["b"]"#));
    assert_eq!(
        read_ws_message(&session, r#"{"type":"response.append","input":"b"}"#).err(),
        Some("websocket request requires array field: input")
    );
}

#[test]
fn session_errors_are_messages() {
    assert_eq!(ws_error("Invalid JSON"), r#"{"message":"Invalid JSON","type":"error"}"#);
}

#[test]
fn session_failures_have_their_own_words() {
    assert_eq!(
        ws_failure(WsFailure::Refused),
        r#"{"message":"invalid request payload","type":"error"}"#
    );
    assert_eq!(
        ws_failure(WsFailure::Unreachable),
        r#"{"message":"failed to call upstream","type":"error"}"#
    );
    assert_eq!(
        ws_failure(WsFailure::Interrupted),
        r#"{"message":"upstream stream failure","type":"error"}"#
    );
}

#[test]
fn clients_ask_for_streams_and_models() {
    assert!(wants_stream(&json(r#"{"stream":true}"#)));
    assert!(!wants_stream(&json(r#"{"stream":"true"}"#)));
    assert!(!wants_stream(&json("{}")));
    assert_eq!(model_of_request(&json(r#"{"model":"m"}"#)), "m");
    assert_eq!(model_of_request(&json("{}")), "gpt-5.4");
}
