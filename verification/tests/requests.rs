use codex_proxy::clock::now_unix;
use codex_proxy::ids::{new_completion_id, new_file_id, new_request_id};
use codex_proxy::json::{parse_json, to_value, Json};
use codex_proxy::logging::{
    classify_pathname, forwarded_client_ip, json_request_record, parsed_unmatched_record,
    redacted_headers, request_id_of, summarize_client_payload, top_level_keys,
    unmatched_request_record, Header, UnmatchedRequest,
};
use codex_proxy::middleware::{authorize, parse_bearer, request_context};
use codex_proxy::records::{
    aggregate_complete_record, aggregate_incomplete_record, client_multipart_record,
    upstream_open_record, AggregateTimes,
};
use codex_proxy::state::RequestContext;
use codex_proxy::upstream::{
    build_chatgpt_upstream_headers, processed_success_headers, upstream_step, HeaderLine, UpstreamStep,
};

fn json(text: &str) -> Json {
    parse_json(text).expect("valid JSON")
}

fn value(text: &str) -> serde_json::Value {
    serde_json::from_str(text).expect("valid JSON")
}

fn header(name: &str, value: Option<&str>) -> Header {
    Header { name: name.to_string(), value: value.map(str::to_string) }
}

fn line(name: &str, value: &str) -> HeaderLine {
    HeaderLine { name: name.to_string(), value: value.as_bytes().to_vec() }
}

fn pairs(lines: &[HeaderLine]) -> Vec<(&str, &str)> {
    lines
        .iter()
        .map(|line| (line.name.as_str(), std::str::from_utf8(&line.value).expect("a text")))
        .collect()
}

fn context() -> RequestContext {
    RequestContext {
        request_id: "req-1".to_string(),
        method: "PUT".to_string(),
        path: "/v1/files".to_string(),
        route_kind: "files",
        content_type: Some("text/x".to_string()),
        client_ip: Some("1.2.3.4".to_string()),
        client_request_id: Some("cli-1".to_string()),
    }
}

#[test]
fn paths_are_classified() {
    for (path, kind) in [
        ("/v1/chat/completions", "chatCompletions"),
        ("/chat/completions//", "chatCompletions"),
        ("/v1/responses", "responsesApi"),
        ("/responses/ws", "responsesWebSocket"),
        ("/models/", "models"),
        ("/v1/files", "files"),
        ("/v1/files/file-1", "unknownUpload"),
        ("/my-attachments", "unknownUpload"),
        ("/", "other"),
        ("/V1/models", "other"),
    ] {
        assert_eq!(classify_pathname(path), kind, "{path}");
    }
}

#[test]
fn bearer_tokens_are_read() {
    assert_eq!(parse_bearer("Bearer abc"), Some("abc".to_string()));
    assert_eq!(parse_bearer("bEARER  a b "), Some("a b".to_string()));
    assert_eq!(parse_bearer("Bearer"), None);
    assert_eq!(parse_bearer("Bearer  "), None);
    assert_eq!(parse_bearer("Basic abc"), None);
    assert_eq!(parse_bearer(" Bearer abc"), None);
}

#[test]
fn key_is_needed_where_one_is_set() {
    assert!(authorize("/v1/models", None, None).is_ok());
    assert!(authorize("/healthz", Some("k"), None).is_ok());
    assert!(authorize("/v1/models", Some("k"), Some("Bearer k")).is_ok());
    for wrong in [None, Some("Bearer x"), Some("k"), Some("Bearer kk")] {
        let error = authorize("/v1/models", Some("k"), wrong).err().expect("a refusal");
        assert_eq!(error.status, 401);
        assert_eq!(error.envelope.error.message, "Invalid or missing API key");
    }
    assert!(authorize("/healthz/", Some("k"), None).is_err());
}

#[test]
fn request_context_is_made_from_the_head() {
    let context = request_context(
        "GET",
        "/v1/models",
        Some("text/x".to_string()),
        Some(" 9.9.9.9 , 8.8.8.8"),
        Some("7.7.7.7"),
        None,
    );
    assert_eq!(context.request_id.len(), 36);
    assert_eq!(context.method, "GET");
    assert_eq!(context.path, "/v1/models");
    assert_eq!(context.route_kind, "models");
    assert_eq!(context.content_type.as_deref(), Some("text/x"));
    assert_eq!(context.client_ip.as_deref(), Some("9.9.9.9"));
    assert_eq!(context.client_request_id, None);
    assert_eq!(request_id_of(Some(&context)), context.request_id);
    assert_ne!(request_id_of(None), request_id_of(None));
}

#[test]
fn client_address_is_the_first_that_is_told() {
    assert_eq!(forwarded_client_ip(Some("a,b"), Some("c")), Some("a".to_string()));
    assert_eq!(forwarded_client_ip(Some(" ,b"), Some(" c ")), Some("c".to_string()));
    assert_eq!(forwarded_client_ip(None, Some("")), None);
    assert_eq!(forwarded_client_ip(None, None), None);
}

#[test]
fn secrets_are_not_written_down() {
    let headers = vec![
        header("Authorization", Some("Bearer s")),
        header("X-Api-Key", None),
        header("Accept", Some("a")),
        header("accept", Some("b")),
        header("x-bin", None),
    ];
    assert_eq!(
        to_value(&redacted_headers(&headers)),
        value(
            r#"{"authorization":"<redacted>","x-api-key":"<redacted>","accept":"b","x-bin":"<binary>"}"#
        )
    );
}

#[test]
fn keys_are_sorted() {
    assert_eq!(
        top_level_keys(&json(r#"{"b":1,"a":2,"B":3,"ab":4,"":5,"é":6}"#)),
        vec!["", "B", "a", "ab", "b", "é"]
    );
    assert!(top_level_keys(&json("[1]")).is_empty());
}

#[test]
fn payloads_are_summarized_without_their_content() {
    let summary = |text: &str| to_value(&summarize_client_payload(&json(text)));
    assert_eq!(
        summary(
            r#"{"model":"m","messages":[{"role":"user"},{"role":7},{"role":"tool"}],
                "input":[{"type":"t","role":"r"},{"role":"r"},"x"]}"#
        ),
        value(
            r#"{"top_level_keys":["input","messages","model"],"messages_len":3,
                "messages_roles":["user","tool"],"input_len":3,
                "input_kinds":["type:t","role:r","item"]}"#
        )
    );
    let many = format!("{{\"input\":[{}]}}", vec!["1"; 40].join(","));
    let long = summary(&many);
    assert_eq!(long["input_len"], 40);
    assert_eq!(long["input_kinds"].as_array().map(Vec::len), Some(32));
    assert_eq!(summary("null"), value(r#"{"kind":"null"}"#));
    assert_eq!(summary("[1,2]"), value(r#"{"kind":"array","length":2}"#));
    assert_eq!(summary("\"s\""), value(r#"{"kind":"string"}"#));
    assert_eq!(summary("true"), value(r#"{"kind":"boolean"}"#));
    assert_eq!(summary("1.5"), value(r#"{"kind":"number"}"#));
}

#[test]
fn request_record_is_exact() {
    let body = json(r#"{"model":"m"}"#);
    let sent = json(r#"{"store":false,"model":"m"}"#);
    let headers = vec![header("Cookie", Some("c"))];
    assert_eq!(
        to_value(&json_request_record(
            5,
            "req-1",
            Some(&context()),
            Some(&headers),
            "client_in",
            &body,
            Some(&sent)
        )),
        value(
            r#"{"ts":5,"phase":"client_in","request_id":"req-1","method":"PUT","path":"/v1/files",
                "route_kind":"files","content_type":"text/x","body_bytes":13,
                "top_level_keys":["model"],"payload_summary":{"top_level_keys":["model"]},
                "client_ip":"1.2.3.4","client_request_id":"cli-1",
                "headers":{"cookie":"<redacted>"},"sanitized_top_level_keys":["model","store"]}"#
        )
    );
    assert_eq!(
        to_value(&json_request_record(5, "r", None, None, "p", &body, None)),
        value(
            r#"{"ts":5,"phase":"p","request_id":"r","method":"POST","path":"","route_kind":"other",
                "content_type":"application/json","body_bytes":13,"top_level_keys":["model"],
                "payload_summary":{"top_level_keys":["model"]},"client_ip":null,
                "client_request_id":null,"headers":null,"sanitized_top_level_keys":null}"#
        )
    );
}

#[test]
fn unmatched_record_previews_what_is_no_json() {
    let headers = vec![header("accept", Some("a"))];
    let long = "é".repeat(600);
    let request = UnmatchedRequest {
        method: "GET",
        path: "/upload",
        content_type: Some("t"),
        headers: &headers,
        body: long.as_bytes(),
    };
    let record = to_value(&unmatched_request_record(1, "r", None, &request));
    assert_eq!(record["text_preview"], "é".repeat(512));
    assert_eq!(record["body_bytes"], 1200);
    assert_eq!(record["route_kind"], "unknownUpload");
    assert_eq!(record["content_type"], "t");
    assert_eq!(record["top_level_keys"], value("null"));
    let request = UnmatchedRequest { body: b"{\"a\":1}", ..request };
    let record = to_value(&unmatched_request_record(1, "r", Some(&context()), &request));
    assert_eq!(record["text_preview"], value("null"));
    assert_eq!(record["top_level_keys"], value(r#"["a"]"#));
    assert_eq!(record["method"], "PUT");
    assert_eq!(record["path"], "/v1/files");
    assert_eq!(record["content_type"], "text/x");
    assert_eq!(record["phase"], "unmatched_request");
    let request = UnmatchedRequest { body: b"", ..request };
    let record = to_value(&parsed_unmatched_record(1, "r", None, &request, None));
    assert_eq!(record["text_preview"], value("null"));
}

#[test]
fn upstream_records_are_exact() {
    assert_eq!(
        to_value(&upstream_open_record(5, Some(&context()), 200, "http://u")),
        value(
            r#"{"ts":5,"phase":"upstream_open","request_id":"req-1","path":"/v1/files",
                "route_kind":"files","status":200,"endpoint":"http://u"}"#
        )
    );
    let times = || AggregateTimes {
        normalization_ms: json("1.5"),
        upstream_open_ms: json("2"),
        first_chunk_ms: Json::Null,
        first_event_ms: Json::Null,
        end_to_end_ms: json("4"),
    };
    let payload = json(r#"{"service_tier":"priority"}"#);
    let response = json(r#"{"usage":{"output_tokens":7,"total_tokens":"x"}}"#);
    assert_eq!(
        to_value(&aggregate_complete_record(
            5,
            None,
            &payload,
            times(),
            json("3"),
            (1, 2, 3),
            &response
        )),
        value(
            r#"{"ts":5,"phase":"responses_aggregate_complete","request_id":null,"path":null,
                "route_kind":null,"service_tier":"priority","normalization_ms":1.5,
                "upstream_open_ms":2,"first_chunk_ms":null,"first_event_ms":null,
                "response_completed_ms":3,"end_to_end_ms":4,"chunk_count":1,"event_count":2,
                "bytes_received":3,"output_tokens":7,"total_tokens":null}"#
        )
    );
    let record = to_value(&aggregate_incomplete_record(5, None, &payload, times(), (1, 2, 3)));
    assert_eq!(record["phase"], "responses_aggregate_incomplete");
    assert!(record.get("response_completed_ms").is_none());
}

#[test]
fn multipart_record_is_exact() {
    assert_eq!(
        to_value(&client_multipart_record(
            5,
            "r",
            None,
            vec!["purpose".to_string(), "file".to_string()],
            Some("blob:1b:t")
        )),
        value(
            r#"{"ts":5,"phase":"client_multipart","request_id":"r","method":"POST",
                "path":"/v1/files","route_kind":"files","content_type":null,
                "field_names":["purpose","file"],"file_hints":{"file":"blob:1b:t"},
                "client_ip":null}"#
        )
    );
}

#[test]
fn upstream_headers_name_the_request() {
    assert_eq!(
        pairs(&build_chatgpt_upstream_headers(
            Some("acct"),
            "codex",
            Some(&context()),
            Some(b"incoming".as_slice()),
            vec![line("x-beta", "1")]
        )),
        vec![
            ("ChatGPT-Account-Id", "acct"),
            ("originator", "codex"),
            ("session_id", "req-1"),
            ("x-request-id", "req-1"),
            ("x-client-request-id", "cli-1"),
            ("x-beta", "1"),
        ]
    );
    assert_eq!(
        pairs(&build_chatgpt_upstream_headers(
            None,
            "codex",
            None,
            Some(b"incoming".as_slice()),
            Vec::new()
        )),
        vec![("originator", "codex"), ("x-request-id", "incoming"), ("session_id", "incoming")]
    );
    assert_eq!(
        pairs(&build_chatgpt_upstream_headers(None, "codex", None, None, Vec::new())),
        vec![("originator", "codex")]
    );
}

#[test]
fn forwarded_headers_take_the_place_of_earlier_ones() {
    assert_eq!(
        pairs(&build_chatgpt_upstream_headers(
            Some("acct"),
            "codex",
            None,
            None,
            vec![line("Originator", "a"), line("x-beta", "1"), line("X-Beta", "2")]
        )),
        vec![("ChatGPT-Account-Id", "acct"), ("Originator", "a"), ("X-Beta", "2")]
    );
    let opaque = HeaderLine { name: "x-beta".to_string(), value: vec![0xff] };
    let headers = build_chatgpt_upstream_headers(None, "codex", None, None, vec![opaque]);
    assert_eq!(headers[1].value, vec![0xff]);
    let twice = vec![line("set-cookie", "a"), line("set-cookie", "b")];
    assert_eq!(
        pairs(&processed_success_headers(&twice)),
        vec![("llm_provider-set-cookie", "b")]
    );
}

#[test]
fn upstream_headers_go_to_the_client_under_telling_names() {
    let headers = vec![
        line("X-Request-Id", "1"),
        line("Server", "s"),
        line("x-ratelimit-reset-tokens", "2"),
    ];
    assert_eq!(
        pairs(&processed_success_headers(&headers)),
        vec![("X-Request-Id", "1"), ("llm_provider-server", "s"), ("x-ratelimit-reset-tokens", "2")]
    );
}

#[test]
fn refused_token_is_refreshed_once() {
    assert!(upstream_step(1, 401) == UpstreamStep::RefreshAndResend);
    assert!(upstream_step(2, 401) == UpstreamStep::Take);
    assert!(upstream_step(1, 200) == UpstreamStep::Take);
    assert!(upstream_step(1, 403) == UpstreamStep::Take);
}

#[test]
fn ids_have_their_form() {
    let plain = |id: &str, start: &str| {
        let made = id.strip_prefix(start).expect("the start");
        made.len() == 32 && made.chars().all(|c| matches!(c, '0'..='9' | 'a'..='f'))
    };
    assert!(plain(&new_completion_id(), "chatcmpl-"));
    assert!(plain(&new_file_id(), "file-"));
    let id = new_request_id();
    assert_eq!(id.len(), 36);
    assert_eq!(id.split('-').map(str::len).collect::<Vec<_>>(), vec![8, 4, 4, 4, 12]);
    assert_ne!(new_request_id(), id);
    assert!(now_unix() > 1_700_000_000);
}

#[test]
fn request_is_its_own_session() {
    let context = RequestContext { request_id: new_request_id(), ..context() };
    let headers = build_chatgpt_upstream_headers(
        Some("acct"),
        "codex",
        Some(&context),
        Some(b"incoming".as_slice()),
        vec![line("x-beta", "1")],
    );
    let session = headers.iter().find(|header| header.name == "session_id").expect("a session");
    assert_eq!(session.value, context.request_id.as_bytes());
    assert!(session.value.len() <= 64);
}
