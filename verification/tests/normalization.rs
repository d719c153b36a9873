use codex_proxy::files::{FileTable, ResolvedFile};
use codex_proxy::json::{parse_json, to_value, Json, JsonObject};
use codex_proxy::normalization::content::{
    content_to_instruction_text, messages_to_input, normalize_content_parts, normalize_input_items,
};
use codex_proxy::normalization::fields::{
    apply_model_alias, ensure_instructions, extract_client_stream_options,
    is_allowed_upstream_field, map_legacy_chat_tool_fields, map_openai_compat_fields,
    map_web_search_options_to_tool, merge_instructions, promote_instruction_items,
    sanitize_include_values, sanitize_tool_types, sanitize_upstream_payload,
    validate_supported_model,
};
use codex_proxy::normalization::{
    normalize_chat_payload, normalize_responses_payload, NormalizeError,
};
use codex_proxy::text_map::TextMap;

fn json(text: &str) -> Json {
    parse_json(text).expect("valid JSON")
}

fn object(text: &str) -> JsonObject {
    match json(text) {
        Json::Object(object) => object,
        _ => panic!("payload should be an object"),
    }
}

fn value(text: &str) -> serde_json::Value {
    serde_json::from_str(text).expect("valid JSON")
}

fn shown(object: &JsonObject) -> serde_json::Value {
    to_value(&Json::Object(object.copy()))
}

fn field(object: &JsonObject, key: &str) -> Option<serde_json::Value> {
    object.get(key).map(to_value)
}

fn normalized(text: &str) -> serde_json::Value {
    let mut payload = json(text);
    let outcome =
        normalize_responses_payload(&TextMap::new(), &FileTable::new(), None, &mut payload);
    assert!(outcome.is_ok(), "normalization failed");
    to_value(&payload)
}

fn chat(text: &str) -> serde_json::Value {
    let mut payload = json(text);
    let outcome = normalize_chat_payload(&TextMap::new(), &FileTable::new(), None, &mut payload);
    assert!(outcome.is_ok(), "normalization failed");
    to_value(&payload)
}

fn refused(outcome: Result<(), NormalizeError>) -> (u16, String) {
    match outcome {
        Err(NormalizeError::Refused(error)) => (error.status, error.envelope.error.message),
        _ => panic!("the request should be refused"),
    }
}

#[test]
fn map_openai_fields_rewrites_reasoning_and_drops_token_caps() {
    let mut payload = object(
        r#"{"max_completion_tokens":321,"reasoning_effort":"high","response_format":{"type":"json_schema"}}"#,
    );

    map_openai_compat_fields(&mut payload);

    assert_eq!(field(&payload, "max_output_tokens"), None);
    assert_eq!(field(&payload, "max_completion_tokens"), None);
    assert_eq!(field(&payload, "reasoning"), Some(value(r#"{"effort":"high"}"#)));
    assert_eq!(
        field(&payload, "text"),
        None,
        "json_schema response_format must be dropped, not forwarded"
    );
}

#[test]
fn apply_model_alias_rewrites_known_alias() {
    let mut aliases = TextMap::new();
    aliases.insert("gpt-5.3-codex-spark-preview", "gpt-5.3-codex-spark".to_string());
    let mut payload = object(r#"{"model":"gpt-5.3-codex-spark-preview"}"#);

    apply_model_alias(&aliases, &mut payload);

    assert_eq!(field(&payload, "model"), Some(value(r#""gpt-5.3-codex-spark""#)));
}

#[test]
fn apply_model_alias_passes_through_unknown() {
    let aliases = TextMap::new();
    let mut payload = object(r#"{"model":"gpt-5.4"}"#);

    apply_model_alias(&aliases, &mut payload);

    assert_eq!(field(&payload, "model"), Some(value(r#""gpt-5.4""#)));
}

#[test]
fn service_tier_non_priority_is_dropped() {
    let mut payload = object(r#"{"service_tier":"default"}"#);
    map_openai_compat_fields(&mut payload);
    assert!(!payload.contains_key("service_tier"));

    let mut payload = object(r#"{"service_tier":"priority"}"#);
    map_openai_compat_fields(&mut payload);
    assert_eq!(field(&payload, "service_tier"), Some(value(r#""priority""#)));
}

#[test]
fn sanitize_drops_fields_rejected_by_chatgpt_backend() {
    let mut payload = object(
        r#"{"model":"gpt-5.4","metadata":{"workspace":"test"},"prompt_cache_retention":"24h",
            "temperature":0.7,"top_p":0.9,"truncation":"auto","max_output_tokens":128}"#,
    );

    sanitize_upstream_payload(&mut payload);

    assert!(!payload.contains_key("metadata"));
    assert!(!payload.contains_key("prompt_cache_retention"));
    assert!(!payload.contains_key("temperature"));
    assert!(!payload.contains_key("top_p"));
    assert!(!payload.contains_key("truncation"));
    assert!(!payload.contains_key("max_output_tokens"));
    assert_eq!(shown(&payload), value(r#"{"model":"gpt-5.4"}"#));
}

#[test]
fn sanitize_keeps_prompt_cache_key() {
    let mut payload = object(r#"{"model":"gpt-5.4","prompt_cache_key":"cursor-session-42"}"#);

    sanitize_upstream_payload(&mut payload);

    assert_eq!(
        field(&payload, "prompt_cache_key"),
        Some(value(r#""cursor-session-42""#))
    );
}

#[test]
fn assistant_output_text_preserved_through_responses_normalization() {
    let payload = normalized(
        r#"{"model":"gpt-5.4","input":[
            {"role":"user","content":[{"type":"input_text","text":"hi"}]},
            {"role":"assistant","content":[{"type":"output_text","text":"hello"}]},
            {"role":"user","content":[{"type":"input_text","text":"again"}]}
        ]}"#,
    );

    let Some(input) = payload.get("input").and_then(serde_json::Value::as_array) else {
        panic!("payload should have input array");
    };
    let Some(assistant) = input
        .iter()
        .find(|item| item.get("role").and_then(serde_json::Value::as_str) == Some("assistant"))
    else {
        panic!("assistant item missing");
    };
    assert_eq!(
        assistant["content"][0]["type"], "output_text",
        "assistant content must keep output_text"
    );
}

#[test]
fn normalization_always_requests_reasoning_encrypted_content() {
    let payload = normalized(
        r#"{"model":"gpt-5.4","input":"hello","include":["web_search_call.action.sources"]}"#,
    );

    let wanted = payload["include"].as_array().expect("include should be an array");
    assert!(
        wanted
            .iter()
            .any(|value| value.as_str() == Some("reasoning.encrypted_content")),
        "reasoning.encrypted_content must always be present"
    );
    assert!(
        wanted
            .iter()
            .any(|value| value.as_str() == Some("web_search_call.action.sources")),
        "client-supplied (accepted) include values must survive sanitization"
    );
}

#[test]
fn normalization_drops_backend_rejected_include_values() {
    let payload =
        normalized(r#"{"model":"gpt-5.4","input":"hello","include":["reasoning.summary","usage"]}"#);

    let wanted = payload["include"].as_array().expect("include should be an array");
    assert!(wanted.iter().all(|v| v.as_str() != Some("reasoning.summary")));
    assert!(wanted.iter().all(|v| v.as_str() != Some("usage")));
}

#[test]
fn promote_instruction_items_merges_system_and_developer_messages() {
    let mut payload = object(
        r#"{"input":[
            {"role":"system","content":"System rule"},
            {"role":"developer","content":[{"type":"input_text","text":"Developer rule"}]},
            {"role":"user","content":"Hello"}
        ]}"#,
    );

    promote_instruction_items(&mut payload);

    assert_eq!(
        field(&payload, "instructions"),
        Some(value(r#""System rule\n\nDeveloper rule""#))
    );
    assert_eq!(
        field(&payload, "input").and_then(|input| input.as_array().map(Vec::len)),
        Some(1)
    );
}

#[test]
fn legacy_functions_and_function_call_map_to_tools_and_tool_choice() {
    let mut payload = object(
        r#"{"functions":[{"name":"lookup","description":"Lookup docs","parameters":{"type":"object"}}],
            "function_call":{"name":"lookup"}}"#,
    );

    map_legacy_chat_tool_fields(&mut payload);

    let payload = shown(&payload);
    assert_eq!(payload["tools"][0]["type"], "function");
    assert_eq!(payload["tools"][0]["name"], "lookup");
    assert_eq!(
        payload["tool_choice"],
        value(r#"{"type":"function","name":"lookup"}"#)
    );
    assert!(payload.get("functions").is_none());
    assert!(payload.get("function_call").is_none());
}

#[test]
fn normalize_responses_input_items_converts_string_content_to_parts() {
    let payload = normalized(
        r#"{"model":"gpt-5.4","input":[
            {"role":"user","content":"hello"},
            {"role":"assistant","content":"hi"}
        ]}"#,
    );

    assert_eq!(
        payload["input"][0]["content"][0],
        value(r#"{"type":"input_text","text":"hello"}"#)
    );
    assert_eq!(
        payload["input"][1]["content"][0],
        value(r#"{"type":"output_text","text":"hi"}"#)
    );
}

#[test]
fn normalize_responses_preserves_image_detail() {
    let payload = normalized(
        r#"{"model":"gpt-5.4","messages":[{
            "role":"user",
            "content":[{
                "type":"image_url",
                "image_url":{"url":"https://example.com/a.png","detail":"high"}
            }]
        }]}"#,
    );

    assert_eq!(payload["input"][0]["content"][0]["type"], "input_image");
    assert_eq!(
        payload["input"][0]["content"][0]["image_url"],
        "https://example.com/a.png"
    );
    assert_eq!(payload["input"][0]["content"][0]["detail"], "high");
}

#[test]
fn response_format_json_object_is_dropped() {
    let mut payload = object(r#"{"response_format":{"type":"json_object"}}"#);
    map_openai_compat_fields(&mut payload);
    assert!(
        !payload.contains_key("response_format"),
        "response_format must not survive the mapping pass"
    );
    assert!(
        !payload.contains_key("text"),
        "json_object must not be forwarded as text.format — backend 400s"
    );
}

#[test]
fn response_format_text_becomes_text_format() {
    let mut payload = object(r#"{"response_format":{"type":"text"}}"#);
    map_openai_compat_fields(&mut payload);
    assert_eq!(
        field(&payload, "text"),
        Some(value(r#"{"format":{"type":"text"}}"#))
    );
}

#[test]
fn reasoning_minimal_clamped_to_low() {
    let mut payload = object(r#"{"reasoning":{"effort":"minimal"}}"#);
    map_openai_compat_fields(&mut payload);
    assert_eq!(field(&payload, "reasoning"), Some(value(r#"{"effort":"low"}"#)));
}

#[test]
fn missing_instructions_becomes_empty_string() {
    let payload = normalized(r#"{"model":"gpt-5.4","input":"hi"}"#);
    assert_eq!(payload.get("instructions"), Some(&value(r#""""#)));
}

#[test]
fn caller_supplied_instructions_preserved() {
    let payload = normalized(r#"{"model":"gpt-5.4","input":"hi","instructions":"Be terse."}"#);
    assert_eq!(payload.get("instructions"), Some(&value(r#""Be terse.""#)));
}

#[test]
fn parallel_tool_calls_forced_true_when_missing() {
    let payload = normalized(r#"{"model":"gpt-5.4","input":"hi"}"#);
    assert_eq!(payload.get("parallel_tool_calls"), Some(&value("true")));
}

#[test]
fn parallel_tool_calls_caller_false_preserved() {
    let payload = normalized(r#"{"model":"gpt-5.4","input":"hi","parallel_tool_calls":false}"#);
    assert_eq!(payload.get("parallel_tool_calls"), Some(&value("false")));
}

#[test]
fn include_filters_to_supported_values() {
    let mut payload = object(
        r#"{"include":["reasoning.encrypted_content","reasoning.summary","usage",
            "web_search_call.action.sources"]}"#,
    );
    sanitize_include_values(&mut payload);
    let payload = shown(&payload);
    let wanted = payload["include"].as_array().expect("include should be an array");
    let strings: Vec<&str> = wanted.iter().filter_map(serde_json::Value::as_str).collect();
    assert!(strings.contains(&"reasoning.encrypted_content"));
    assert!(strings.contains(&"web_search_call.action.sources"));
    assert!(!strings.contains(&"reasoning.summary"));
    assert!(!strings.contains(&"usage"));
}

#[test]
fn tools_filters_to_supported_types() {
    let mut payload = object(
        r#"{"tools":[
            {"type":"function","name":"lookup","parameters":{"type":"object"}},
            {"type":"file_search"},
            {"type":"code_interpreter"},
            {"type":"web_search"},
            {"type":"image_generation"},
            {"type":"apply_patch"}
        ]}"#,
    );
    sanitize_tool_types(&mut payload);
    let payload = shown(&payload);
    let tools = payload["tools"].as_array().expect("tools should be an array");
    let types: Vec<&str> = tools
        .iter()
        .filter_map(|t| t.get("type").and_then(serde_json::Value::as_str))
        .collect();
    assert_eq!(types, vec!["function", "web_search", "image_generation"]);
}

#[test]
fn web_search_options_injects_web_search_tool_and_drops_original() {
    let mut payload = object(r#"{"web_search_options":{"search_context_size":"high"}}"#);
    map_web_search_options_to_tool(&mut payload);
    assert!(
        !payload.contains_key("web_search_options"),
        "upstream 400s on web_search_options, must be dropped"
    );
    let payload = shown(&payload);
    let tool = &payload["tools"][0];
    assert_eq!(tool["type"], "web_search");
    assert_eq!(tool["search_context_size"], "high");
}

#[test]
fn web_search_options_no_op_when_tool_already_present() {
    let mut payload = object(
        r#"{"tools":[{"type":"web_search","search_context_size":"low"}],
            "web_search_options":{"search_context_size":"high"}}"#,
    );
    map_web_search_options_to_tool(&mut payload);
    assert!(!payload.contains_key("web_search_options"));
    let payload = shown(&payload);
    let tools = payload["tools"].as_array().expect("tools should be an array");
    assert_eq!(tools.len(), 1);
}

#[test]
fn allowlist_matches_probe_matrix() {
    // Every top-level field name that the backend was seen to accept must survive, and every
    // one that it was seen to reject must be stripped.
    let matrix = "# probe\tstatus\tverdict\n\
        baseline\t200\taccept\n\
        temperature\t400\treject\n\
        top_p\t400\treject\n\
        max_output_tokens\t400\treject\n\
        max_tokens\t400\treject\n\
        max_completion_tokens\t400\treject\n\
        n\t400\treject\n\
        seed\t400\treject\n\
        stop\t400\treject\n\
        logprobs\t400\treject\n\
        top_logprobs\t400\treject\n\
        user\t400\treject\n\
        safety_identifier\t400\treject\n\
        metadata\t400\treject\n\
        prompt_cache_key_short\t200\taccept\n\
        prompt_cache_key_long\t200\taccept\n\
        parallel_tool_calls\t200\taccept\n\
        truncation_auto\t400\treject\n\
        truncation_disabled\t400\treject\n\
        background\t400\treject\n\
        modalities\t400\treject\n\
        audio\t400\treject\n\
        stream_options\t400\treject\n\
        prompt_cache_retention\t400\treject\n\
        conversation\t400\treject\n\
        frequency_penalty\t400\treject\n\
        presence_penalty\t400\treject\n\
        max_tool_calls\t400\treject\n\
        web_search_options\t400\treject\n\
        context_management\t400\treject\n";
    let top_level = |probe_name: &str| -> Option<&'static str> {
        match probe_name {
            "baseline" => None,
            "temperature" => Some("temperature"),
            "top_p" => Some("top_p"),
            "max_output_tokens" => Some("max_output_tokens"),
            "max_tokens" => Some("max_tokens"),
            "max_completion_tokens" => Some("max_completion_tokens"),
            "n" => Some("n"),
            "seed" => Some("seed"),
            "stop" => Some("stop"),
            "logprobs" => Some("logprobs"),
            "top_logprobs" => Some("top_logprobs"),
            "user" => Some("user"),
            "safety_identifier" => Some("safety_identifier"),
            "metadata" => Some("metadata"),
            "prompt_cache_key_short" | "prompt_cache_key_long" => Some("prompt_cache_key"),
            "parallel_tool_calls" => Some("parallel_tool_calls"),
            "truncation_auto" | "truncation_disabled" => Some("truncation"),
            "background" => Some("background"),
            "modalities" => Some("modalities"),
            "audio" => Some("audio"),
            "stream_options" => Some("stream_options"),
            "prompt_cache_retention" => Some("prompt_cache_retention"),
            "conversation" => Some("conversation"),
            "frequency_penalty" => Some("frequency_penalty"),
            "presence_penalty" => Some("presence_penalty"),
            "max_tool_calls" => Some("max_tool_calls"),
            "web_search_options" => Some("web_search_options"),
            "context_management" => Some("context_management"),
            _ => None,
        }
    };
    let mut accepted = 0;
    let mut rejected = 0;
    for line in matrix.lines() {
        if line.starts_with('#') || line.is_empty() {
            continue;
        }
        let mut fields = line.splitn(6, '\t');
        let probe_name = fields.next().unwrap_or("");
        let _status = fields.next().unwrap_or("");
        let verdict = fields.next().unwrap_or("");
        let Some(key) = top_level(probe_name) else {
            continue;
        };
        match verdict {
            "accept" => {
                accepted += 1;
                assert!(
                    is_allowed_upstream_field(key),
                    "probe matrix says `{key}` accepts but allowlist drops it"
                );
            }
            "reject" => {
                rejected += 1;
                assert!(
                    !is_allowed_upstream_field(key),
                    "probe matrix says `{key}` rejects but allowlist forwards it"
                );
            }
            _ => {}
        }
    }
    assert_eq!((accepted, rejected), (3, 26));
}

#[test]
fn request_is_sent_in_exactly_this_form() {
    assert_eq!(
        normalized(
            r#"{"model":"gpt-5.4","input":"hi","temperature":0.5,"stream":false,"store":true,
                "service_tier":"flex","reasoning_effort":"minimal","max_tokens":9,
                "previous_response_id":"resp_1","prompt_cache_key":"k"}"#
        ),
        value(
            r#"{"model":"gpt-5.4","store":false,"stream":true,"instructions":"",
                "include":["reasoning.encrypted_content"],"parallel_tool_calls":true,
                "reasoning":{"effort":"low"},
                "previous_response_id":"resp_1","prompt_cache_key":"k",
                "input":[{"role":"user","content":[{"type":"input_text","text":"hi"}]}]}"#
        )
    );
}

#[test]
fn input_counts_before_messages_on_the_responses_route_only() {
    let both = r#"{"model":"gpt-5.4","input":"from input",
        "messages":[{"role":"user","content":"from messages"}]}"#;
    assert_eq!(normalized(both)["input"][0]["content"][0]["text"], "from input");
    assert_eq!(chat(both)["input"][0]["content"][0]["text"], "from messages");
    assert_eq!(normalized(r#"{"model":"gpt-5.4"}"#)["input"], value("[]"));
    assert_eq!(chat(r#"{"model":"gpt-5.4","input":7}"#)["input"][0]["content"][0]["text"], "7");
}

#[test]
fn refused_requests_are_answered_and_left_alone() {
    let aliases = TextMap::new();
    let files = FileTable::new();
    let mut list = json("[1]");
    assert_eq!(
        refused(normalize_responses_payload(&aliases, &files, None, &mut list)),
        (400, "Request body must be a JSON object".to_string())
    );
    assert_eq!(to_value(&list), value("[1]"));
    let mut unknown = json(r#"{"model":"gpt-4","input":"x"}"#);
    let (status, message) =
        refused(normalize_responses_payload(&aliases, &files, None, &mut unknown));
    assert_eq!(status, 400);
    assert_eq!(
        message,
        "Unsupported model. Supported: gpt-5.3-codex, gpt-5.4, gpt-5.4-mini, gpt-5.2-codex, gpt-5.1-codex-max, gpt-5.2, gpt-5.1-codex-mini, gpt-5.3-codex-spark"
    );
    let mut empty = json(r#"{"model":"gpt-5.4"}"#);
    let outcome = normalize_chat_payload(&aliases, &files, None, &mut empty);
    assert_eq!(
        refused(outcome.map(|_| ())),
        (400, "chat/completions requires either messages or input".to_string())
    );
    assert_eq!(to_value(&empty), value(r#"{"model":"gpt-5.4"}"#));
    assert!(validate_supported_model(&object("{}")).is_err());
}

#[test]
fn stored_files_go_in_place_of_their_ids() {
    let text = r#"{"model":"gpt-5.4","input":[
        {"role":"user","content":[{"type":"input_file","file_id":"file-1"}]},
        {"type":"message","content":[{"type":"input_image","file_id":"file-1"},
            {"type":"input_file","file_id":"file-1","filename":"own.txt"}]}]}"#;
    let aliases = TextMap::new();
    let mut files = FileTable::new();
    let mut payload = json(text);
    match normalize_responses_payload(&aliases, &files, None, &mut payload) {
        Err(NormalizeError::FileNeeded(id)) => assert_eq!(id, "file-1"),
        _ => panic!("the file has to be looked up first"),
    }
    assert_eq!(to_value(&payload), value(text));
    files.enter("file-1", None);
    assert_eq!(
        refused(normalize_responses_payload(&aliases, &files, None, &mut payload)),
        (404, "A referenced file_id is unknown, deleted, or expired".to_string())
    );
    files.enter(
        "file-1",
        Some(ResolvedFile {
            data_url: "data:text/plain;base64,aGk=".to_string(),
            filename: "hi.txt".to_string(),
        }),
    );
    assert!(normalize_responses_payload(&aliases, &files, None, &mut payload).is_ok());
    let payload = to_value(&payload);
    assert_eq!(
        payload["input"][0]["content"][0],
        value(
            r#"{"type":"input_file","file_data":"data:text/plain;base64,aGk=","filename":"hi.txt"}"#
        )
    );
    assert_eq!(
        payload["input"][1]["content"],
        value(
            r#"[{"type":"input_image","image_url":"data:text/plain;base64,aGk="},
                {"type":"input_file","file_data":"data:text/plain;base64,aGk=","filename":"own.txt"}]"#
        )
    );
}

#[test]
fn content_parts_take_the_upstream_form() {
    let files = FileTable::new();
    let parts = |content: &str, role: &str| -> serde_json::Value {
        let content = json(content);
        let parts = normalize_content_parts(&files, Some(&content), role).ok().expect("parts");
        to_value(&Json::List(parts))
    };
    assert_eq!(
        parts(
            r#"[{"type":"text","text":"a"},{"type":"output_text","text":"b"},{"type":"strange"},
                {"type":"refusal","refusal":"no"},
                {"type":"image_url","image_url":"http://i","detail":"low"},
                {"type":"image_url","image_url":{"url":7}},
                {"type":"file","file":{"file_data":"d"}},
                {"type":"file","file":{"file_url":"u","filename":"n"}},
                {"type":"file"},
                {"type":"input_file","file_url":"keep"}]"#,
            "user"
        ),
        value(
            r#"[{"type":"input_text","text":"a"},{"type":"input_text","text":"b"},
                {"type":"input_image","image_url":"http://i","detail":"low"},
                {"type":"input_file","file_data":"d","filename":"upload.bin"},
                {"type":"input_file","file_url":"u","filename":"n"},
                {"type":"input_file","file_url":"keep"}]"#
        )
    );
    assert_eq!(
        parts(r#"[{"type":"refusal","refusal":"no"}]"#, "assistant"),
        value(r#"[{"type":"refusal","refusal":"no"}]"#)
    );
    assert_eq!(parts("[]", "assistant"), value(r#"[{"type":"output_text","text":""}]"#));
    assert_eq!(parts("7", "user"), value(r#"[{"type":"input_text","text":""}]"#));
}

#[test]
fn chat_messages_become_items_and_instructions() {
    let messages = match json(
        r#"[{"role":"system","content":"rule"},
            {"role":"developer","content":[{"type":"text","text":"more"},{"type":"image_url"}]},
            {"role":"user","content":"hi"},
            {"role":"assistant","content":"","tool_calls":[{"id":"c1","function":{"name":"f","arguments":"{\"a\":1}"}},{}]},
            {"role":"tool","tool_call_id":"c1","content":"done"},
            {"role":"assistant"},
            {"role":"narrator","content":"unheard"}]"#,
    ) {
        Json::List(messages) => messages,
        _ => panic!("messages should be a list"),
    };
    let (input, instructions) =
        messages_to_input(&FileTable::new(), &messages).ok().expect("input");
    assert_eq!(instructions, "rule\n\nmore");
    assert_eq!(
        to_value(&Json::List(input)),
        value(
            r#"[{"role":"user","content":[{"type":"input_text","text":"hi"}]},
                {"type":"function_call","name":"f","arguments":"{\"a\":1}","call_id":"c1"},
                {"type":"function_call","name":"","arguments":"{}","call_id":""},
                {"type":"function_call_output","call_id":"c1","output":"done"},
                {"role":"assistant","content":[{"type":"output_text","text":""}]}]"#
        )
    );
}

#[test]
fn input_items_that_are_no_objects_are_said_by_the_user() {
    let input = json(r#"["hi",7,{"role":"user"},{"role":"user","content":null},{"role":"assistant","content":{"a":1}}]"#);
    let items = normalize_input_items(&FileTable::new(), &input).ok().expect("items");
    assert_eq!(
        to_value(&items),
        value(
            r#"[{"role":"user","content":[{"type":"input_text","text":"hi"}]},
                {"role":"user","content":[{"type":"input_text","text":"7"}]},
                {"role":"user","content":[{"type":"input_text","text":""}]},
                {"role":"user","content":[{"type":"input_text","text":""}]},
                {"role":"assistant","content":[{"type":"output_text","text":"{\"a\":1}"}]}]"#
        )
    );
    let text = json(r#""plain""#);
    let same = normalize_input_items(&FileTable::new(), &text).ok().expect("text");
    assert_eq!(to_value(&same), value(r#""plain""#));
}

#[test]
fn instructions_are_joined_behind_those_of_the_caller() {
    let payload = normalized(
        r#"{"model":"gpt-5.4","instructions":"Own.","input":[{"role":"system","content":"Rule."}]}"#,
    );
    assert_eq!(payload["instructions"], "Own.\n\nRule.");
    let mut object = object(r#"{"instructions":"  "}"#);
    merge_instructions(&mut object, " \n".to_string());
    assert_eq!(field(&object, "instructions"), Some(value(r#""  ""#)));
    merge_instructions(&mut object, "New.".to_string());
    assert_eq!(field(&object, "instructions"), Some(value(r#""New.""#)));
    assert_eq!(content_to_instruction_text(&json("7")), "7");
    assert_eq!(
        content_to_instruction_text(&json(r#"[{"type":"text","text":"a"},{"type":"x"},{"type":"input_text","text":"b"}]"#)),
        "a\n\nb"
    );
}

#[test]
fn default_instructions_stand_in_for_missing_ones() {
    let mut none = object("{}");
    ensure_instructions(&mut none, Some("Default."));
    assert_eq!(field(&none, "instructions"), Some(value(r#""Default.""#)));
    let mut blank = object(r#"{"instructions":" "}"#);
    ensure_instructions(&mut blank, Some("  "));
    assert_eq!(field(&blank, "instructions"), Some(value(r#""""#)));
}

#[test]
fn usage_is_sent_only_where_it_is_asked_for() {
    assert!(extract_client_stream_options(&object(r#"{"stream_options":{"include_usage":true}}"#)).include_usage);
    assert!(!extract_client_stream_options(&object(r#"{"stream_options":{"include_usage":"yes"}}"#)).include_usage);
    assert!(!extract_client_stream_options(&object("{}")).include_usage);
}

#[test]
fn text_settings_keep_only_the_plain_format() {
    let mut other = object(r#"{"text":{"format":{"type":"json_schema"},"verbosity":"low"}}"#);
    map_openai_compat_fields(&mut other);
    assert_eq!(shown(&other), value(r#"{"text":{"verbosity":"low"}}"#));
    let mut empty = object(r#"{"text":{"format":{"type":"json_schema"}}}"#);
    map_openai_compat_fields(&mut empty);
    assert_eq!(shown(&empty), value("{}"));
    let mut effort = object(r#"{"reasoning":null,"reasoning_effort":"high"}"#);
    map_openai_compat_fields(&mut effort);
    assert_eq!(shown(&effort), value(r#"{"reasoning":null,"reasoning_effort":"high"}"#));
}

#[test]
fn files_are_needed_one_after_the_other() {
    let text = r#"{"model":"gpt-5.4","messages":[{"role":"user","content":[
        {"type":"file","file":{"file_id":"file-1"}},
        {"type":"input_image","file_id":"file-2"},
        {"type":"file","file":{"file_id":"file-1"}}]}]}"#;
    let mut payload = json(text);
    let mut files = FileTable::new();
    let mut needed = Vec::new();
    loop {
        match normalize_chat_payload(&TextMap::new(), &files, None, &mut payload) {
            Ok(_) => break,
            Err(NormalizeError::FileNeeded(id)) => {
                files.enter(
                    &id,
                    Some(ResolvedFile {
                        data_url: format!("data:{id}"),
                        filename: format!("{id}.txt"),
                    }),
                );
                needed.push(id);
            }
            Err(NormalizeError::Refused(_)) => panic!("the files are there"),
        }
    }
    assert_eq!(needed, vec!["file-1", "file-2"]);
    let payload = to_value(&payload);
    assert_eq!(
        payload["input"][0]["content"],
        value(
            r#"[{"type":"input_file","file_data":"data:file-1","filename":"file-1.txt"},
                {"type":"input_image","image_url":"data:file-2"},
                {"type":"input_file","file_data":"data:file-1","filename":"file-1.txt"}]"#
        )
    );
}

#[test]
fn normalizing_settles() {
    let mut aliases = TextMap::new();
    aliases.insert("fast", "gpt-5.4".to_string());
    let mut files = FileTable::new();
    files.enter(
        "file-1",
        Some(ResolvedFile { data_url: "data:x".to_string(), filename: "a.txt".to_string() }),
    );
    let payload = r#"{
        "model": "fast",
        "instructions": " ",
        "messages": [
            {"role": "system", "content": "Be brief."},
            {"role": "user", "content": [
                {"type": "text", "text": "Look"},
                {"type": "image_url", "image_url": {"url": "https://x/y.png", "detail": "low"}},
                {"type": "file", "file": {"file_id": "file-1"}},
                {"type": "unknown"}
            ]},
            {"role": "assistant", "tool_calls": [
                {"id": "c1", "function": {"name": "f", "arguments": "{}"}}
            ]},
            {"role": "tool", "tool_call_id": "c1", "content": "done"}
        ],
        "functions": [{"name": "f"}, {"type": "odd"}],
        "function_call": {"name": "f"},
        "web_search_options": {"search_context_size": "low"},
        "reasoning_effort": "minimal",
        "response_format": {"type": "text"},
        "service_tier": "flex",
        "include": ["nothing"],
        "max_tokens": 5
    }"#;
    let default = Some("Default.");
    let mut sent = json(payload);
    let outcome = normalize_chat_payload(&aliases, &files, default, &mut sent);
    assert!(outcome.is_ok(), "normalization failed");
    let first = to_value(&sent);
    assert_eq!(first["model"], "gpt-5.4");
    assert_eq!(first["instructions"], "Be brief.");
    assert_eq!(first["tools"].as_array().expect("tools").len(), 2);

    let again = normalize_chat_payload(&aliases, &FileTable::new(), default, &mut sent);
    assert!(again.is_ok(), "normalization failed");
    assert_eq!(to_value(&sent), first);
    let again = normalize_responses_payload(&aliases, &FileTable::new(), default, &mut sent);
    assert!(again.is_ok(), "normalization failed");
    assert_eq!(to_value(&sent), first);
}

#[test]
fn model_with_the_name_of_an_alias_is_renamed_again() {
    let mut aliases = TextMap::new();
    aliases.insert("fast", "gpt-5.4".to_string());
    aliases.insert("gpt-5.4", "gpt-5.3-codex".to_string());
    let mut sent = json(r#"{"model":"fast","input":"hello"}"#);
    let outcome = normalize_responses_payload(&aliases, &FileTable::new(), None, &mut sent);
    assert!(outcome.is_ok(), "normalization failed");
    assert_eq!(to_value(&sent)["model"], "gpt-5.4");
    let again = normalize_responses_payload(&aliases, &FileTable::new(), None, &mut sent);
    assert!(again.is_ok(), "normalization failed");
    assert_eq!(to_value(&sent)["model"], "gpt-5.3-codex");
}
