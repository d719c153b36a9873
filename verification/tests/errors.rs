use codex_proxy::errors::{
    json_error, json_error_full, normalize_parsed_error_body, normalize_upstream_error_body,
    unsupported_proxy_route_error, upstream_error_body, upstream_open_error_response,
};
use codex_proxy::json::{parse_json, to_value};
use codex_proxy::logging::unmatched_route_error;
use codex_proxy::routes::unserved_route_error;

fn value(text: &str) -> serde_json::Value {
    serde_json::from_str(text).expect("valid JSON")
}

#[test]
fn detail_shape_error_translated_to_openai_envelope() {
    let out = normalize_upstream_error_body(
        r#"{"detail":"Unsupported parameter: temperature"}"#,
        400,
    );
    let parsed = value(&out);
    assert_eq!(
        parsed["error"]["message"],
        "Unsupported parameter: temperature"
    );
    assert_eq!(parsed["error"]["type"], "invalid_request_error");
    assert!(parsed["error"].get("code").is_some(), "code key must be present (null ok)");
    assert!(parsed["error"].get("param").is_some(), "param key must be present (null ok)");
}

#[test]
fn structured_error_passes_through_unchanged() {
    let raw = r#"{"error":{"message":"Invalid value","type":"invalid_request_error","param":"include[1]","code":"invalid_value"}}"#;
    let out = normalize_upstream_error_body(raw, 400);
    assert_eq!(out, raw);
}

#[test]
fn non_json_body_wrapped_as_message() {
    let out = normalize_upstream_error_body("Cloudflare blocked the request", 503);
    let parsed = value(&out);
    assert_eq!(parsed["error"]["message"], "Cloudflare blocked the request");
    assert_eq!(parsed["error"]["type"], "server_error");
}

#[test]
fn proxy_error_envelope_includes_code_and_param_when_set() {
    let response = unsupported_proxy_route_error("/v1/embeddings");
    assert_eq!(response.status, 501);
    let parsed = to_value(&response.envelope.to_json());
    assert_eq!(parsed["error"]["type"], "unsupported_route_error");
    assert_eq!(parsed["error"]["code"], "unsupported_route");
    assert!(
        parsed["error"].get("param").is_none() || parsed["error"]["param"] == serde_json::Value::Null,
        "param should be absent when None"
    );
}

#[test]
fn lifecycle_responses_routes_are_explicitly_rejected() {
    let response = unserved_route_error("/v1/responses/resp_123").expect("an answer");
    assert_eq!(response.status, 501);
    let json = to_value(&response.envelope.to_json());
    assert_eq!(json["error"]["type"], "upstream_capability_error");
    assert_eq!(json["error"]["code"], "upstream_capability");
    assert_eq!(
        json["error"]["message"],
        "Route /v1/responses/resp_123 requires durable response lifecycle semantics that cannot be truthfully provided over the ChatGPT Codex upstream."
    );
}

#[test]
fn known_but_unsupported_routes_are_explicitly_rejected() {
    let response = unserved_route_error("/v1/embeddings").expect("an answer");
    assert_eq!(response.status, 501);
    let json = to_value(&response.envelope.to_json());
    assert_eq!(json["error"]["type"], "unsupported_route_error");
    assert_eq!(
        json["error"]["message"],
        "Route /v1/embeddings is recognized but not supported by this proxy's stable Codex facade."
    );
}

#[test]
fn unknown_routes_remain_not_found() {
    assert!(unserved_route_error("/v1/does-not-exist").is_none());
    let response = unmatched_route_error("/v1/does-not-exist");
    assert_eq!(response.status, 404);
    let json = to_value(&response.envelope.to_json());
    assert_eq!(
        json["error"]["message"],
        "Unsupported route: /v1/does-not-exist. Check proxy request logs for diagnostics."
    );
    assert_eq!(json["error"]["type"], "invalid_request_error");
}

#[test]
fn error_type_follows_the_status() {
    for (status, kind) in [
        (400, "invalid_request_error"),
        (401, "authentication_error"),
        (403, "permission_error"),
        (404, "not_found_error"),
        (418, "invalid_request_error"),
        (429, "rate_limit_error"),
        (499, "invalid_request_error"),
        (500, "server_error"),
        (599, "server_error"),
        (600, "invalid_request_error"),
    ] {
        let parsed = value(&normalize_upstream_error_body("no", status));
        assert_eq!(parsed["error"]["type"], kind, "status {status}");
    }
}

#[test]
fn error_text_is_exact() {
    assert_eq!(
        normalize_upstream_error_body("  blocked \n", 403),
        r#"{"error":{"code":null,"message":"blocked","param":null,"type":"permission_error"}}"#
    );
    let parsed = parse_json(r#"{"detail":7}"#);
    assert_eq!(
        normalize_parsed_error_body(r#" {"detail":7} "#, parsed, 400),
        r#"{"error":{"code":null,"message":"{\"detail\":7}","param":null,"type":"invalid_request_error"}}"#
    );
}

#[test]
fn normalized_error_is_not_changed_again() {
    let once = normalize_upstream_error_body("broken", 500);
    assert_eq!(normalize_upstream_error_body(&once, 400), once);
}

#[test]
fn unreadable_error_body_is_stood_in_for() {
    let parsed = value(&upstream_error_body(None, 500));
    assert_eq!(
        parsed,
        value(
            r#"{"error":{"message":"Upstream request failed and response body could not be read","type":"server_error"}}"#
        )
    );
    assert_eq!(
        value(&upstream_error_body(Some("x"), 401))["error"]["type"],
        "authentication_error"
    );
}

#[test]
fn open_errors_are_told_apart() {
    assert_eq!(upstream_open_error_response("dns failure").status, 502);
    assert_eq!(
        upstream_open_error_response("dns failure").envelope.error.message,
        "Failed to open upstream stream"
    );
    assert_eq!(upstream_open_error_response("Cannot read the weather").status, 502);
    assert_eq!(upstream_open_error_response("refresh_token rejected").status, 503);
}

#[test]
fn envelope_leaves_out_what_is_not_known() {
    let plain = json_error(400, "no");
    assert_eq!(to_value(&plain.envelope.to_json()), value(r#"{"error":{"message":"no"}}"#));
    let full = json_error_full(400, "no", Some("t"), Some("c"), Some("p"));
    assert_eq!(full.status, 400);
    assert_eq!(
        to_value(&full.envelope.to_json()),
        value(r#"{"error":{"message":"no","type":"t","code":"c","param":"p"}}"#)
    );
}

#[test]
fn routes_are_told_apart() {
    let kind = |path: &str| unserved_route_error(path).and_then(|error| error.envelope.error.code);
    for path in [
        "/v1/responses/r",
        "/responses/r",
        "/responses/r/cancel",
        "/v1/responses/r/input_items",
        "/v1/responses/ws/cancel",
    ] {
        assert_eq!(kind(path).as_deref(), Some("upstream_capability"), "{path}");
    }
    for path in ["/v1/moderations", "/images", "/v1/audio", "/batches", "/uploads"] {
        assert_eq!(kind(path).as_deref(), Some("unsupported_route"), "{path}");
    }
    for path in [
        "/v1/responses",
        "/responses/ws",
        "/v1/responses/ws",
        "/v1/responses/",
        "/v1/responses//cancel",
        "/v1/responses/r/other",
        "/v1/responses/r/cancel/now",
        "/v1/embeddings/",
        "/v1/v1/embeddings",
        "/v2/embeddings",
        "embeddings",
        "/v1",
        "/",
        "",
        "*",
        "/healthz",
        "/v1/files/file-1",
    ] {
        assert_eq!(kind(path), None, "{path}");
    }
}
