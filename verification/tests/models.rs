use codex_proxy::codex_adapter::{model_not_found, models_response, CodexAdapter};
use codex_proxy::config::supported_models;
use codex_proxy::files::FileTable;
use codex_proxy::json::{parse_json, to_value};
use codex_proxy::streaming::tool_calls::ToolStreamState;
use codex_proxy::text_map::TextMap;

#[test]
fn models_route_returns_all_supported_model_ids() {
    let response = models_response(CodexAdapter::new().list_models());
    let ids: Vec<String> = response.data.iter().map(|item| item.id.clone()).collect();
    assert_eq!(ids, supported_models());
    assert_eq!(response.object, "list");
    assert_eq!(
        ids,
        vec![
            "gpt-5.3-codex",
            "gpt-5.4",
            "gpt-5.4-mini",
            "gpt-5.2-codex",
            "gpt-5.1-codex-max",
            "gpt-5.2",
            "gpt-5.1-codex-mini",
            "gpt-5.3-codex-spark",
        ]
    );
}

#[test]
fn retrieve_model_returns_known_model() {
    let model = CodexAdapter::new().get_model("gpt-5.4").expect("a known model");
    assert_eq!(model.id, "gpt-5.4");
    assert_eq!(model.object, "model");
    assert_eq!(model.owned_by, "openai");
    assert!(model.created > 1_700_000_000);
}

#[test]
fn unknown_models_are_not_found() {
    let adapter = CodexAdapter::new();
    assert!(adapter.get_model("gpt-4").is_none());
    assert!(adapter.get_model("").is_none());
    assert_eq!(adapter.get_model_at("gpt-5.2", 7).expect("a model").created, 7);
    let error = model_not_found();
    assert_eq!(error.status, 404);
    assert_eq!(error.envelope.error.message, "Model not found");
    assert_eq!(error.envelope.error.error_type.as_deref(), Some("invalid_request_error"));
}

#[test]
fn adapter_speaks_for_the_library() {
    let adapter = CodexAdapter::new();
    let mut payload = parse_json(r#"{"model":"gpt-5.4","input":"hi"}"#).expect("valid JSON");
    let files = FileTable::new();
    let aliases = TextMap::new();
    assert!(adapter
        .normalize_responses_payload(&aliases, &files, Some("Default."), &mut payload)
        .is_ok());
    assert_eq!(to_value(&payload)["instructions"], "Default.");
    let mut chat = parse_json(
        r#"{"model":"gpt-5.4","messages":[],"stream_options":{"include_usage":true}}"#,
    )
    .expect("valid JSON");
    let options = adapter
        .normalize_chat_payload(&aliases, &files, None, &mut chat)
        .ok()
        .expect("options");
    assert!(options.include_usage);
    let event = parse_json(r#"{"type":"response.reasoning_text.delta","delta":"m"}"#)
        .expect("valid JSON");
    let line = adapter
        .map_response_event_to_chat_chunk(&event, &mut ToolStreamState::new(), "id", 1, "m")
        .expect("a line");
    assert!(line.contains("\"reasoning_content\":\"m\""));
    assert_eq!(to_value(&adapter.response_to_chat_message(None))["role"], "assistant");
    assert!(!adapter.response_output_indicates_tool_calls(None));
}
