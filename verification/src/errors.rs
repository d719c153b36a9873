use vstd::prelude::*;

use crate::json::{
    group_json, no_fields, opt_json, parse_json, print_json, Json, JsonObject, JsonTree,
};
use crate::serde_bridge::{lemma_short_keys, parsed_text, plain_within, printed};
use crate::text::{concat, contains_text, has_text, opt_string, opt_text, trim, trimmed};
use crate::types::{ErrorBody, ErrorEnvelope};

verus! {

broadcast use group_json;

/// A request that failed: the status and the body of the answer.
pub struct ErrorResponse {
    pub status: u16,
    pub envelope: ErrorEnvelope,
}

/// What a failed request is answered, by the texts involved.
pub struct ErrorAnswer {
    pub status: u16,
    pub message: Seq<char>,
    pub error_type: Option<Seq<char>>,
    pub code: Option<Seq<char>>,
    pub param: Option<Seq<char>>,
}

impl View for ErrorResponse {
    type V = ErrorAnswer;

    open spec fn view(&self) -> ErrorAnswer {
        ErrorAnswer {
            status: self.status,
            message: self.envelope.error.message@,
            error_type: opt_string(self.envelope.error.error_type),
            code: opt_string(self.envelope.error.code),
            param: opt_string(self.envelope.error.param),
        }
    }
}

/// An answer with a status and a message alone.
pub open spec fn plain_error(status: u16, message: Seq<char>) -> ErrorAnswer {
    ErrorAnswer { status, message, error_type: None, code: None, param: None }
}

/// A text of its own, where there is one.
fn owned(text: Option<&str>) -> (out: Option<String>)
    ensures
        opt_string(out) == opt_text(text),
{
    match text {
        Some(text) => Some(text.to_owned()),
        None => None,
    }
}

/// An error with a message.
pub fn json_error(status: u16, message: &str) -> (error: ErrorResponse)
    ensures
        error@ == plain_error(status, message@),
{
    json_error_with_type(status, message, None)
}

/// An error with a message and a type.
pub fn json_error_with_type(status: u16, message: &str, error_type: Option<&str>) -> (error:
    ErrorResponse)
    ensures
        error@ == (ErrorAnswer {
            status,
            message: message@,
            error_type: opt_text(error_type),
            code: None,
            param: None,
        }),
{
    json_error_full(status, message, error_type, None, None)
}

/// An error with all that can be said of it.
pub fn json_error_full(
    status: u16,
    message: &str,
    error_type: Option<&str>,
    code: Option<&str>,
    param: Option<&str>,
) -> (error: ErrorResponse)
    ensures
        error@ == (ErrorAnswer {
            status,
            message: message@,
            error_type: opt_text(error_type),
            code: opt_text(code),
            param: opt_text(param),
        }),
{
    ErrorResponse {
        status,
        envelope: ErrorEnvelope {
            error: ErrorBody {
                message: message.to_owned(),
                error_type: owned(error_type),
                code: owned(code),
                param: owned(param),
            },
        },
    }
}

/// The answer for a route of the public API that this proxy does not serve.
pub open spec fn unsupported_route_answer(path: Seq<char>) -> ErrorAnswer {
    ErrorAnswer {
        status: 501,
        message: "Route "@ + path
            + " is recognized but not supported by this proxy's stable Codex facade."@,
        error_type: Some("unsupported_route_error"@),
        code: Some("unsupported_route"@),
        param: None,
    }
}

/// The answer for a route of the public API that this proxy does not serve.
pub fn unsupported_proxy_route_error(path: &str) -> (error: ErrorResponse)
    ensures
        error@ == unsupported_route_answer(path@),
{
    let start = concat("Route ", path);
    let message = concat(
        start.as_str(),
        " is recognized but not supported by this proxy's stable Codex facade.",
    );
    json_error_full(
        501,
        message.as_str(),
        Some("unsupported_route_error"),
        Some("unsupported_route"),
        None,
    )
}

/// The answer for a route that the upstream gives no means to serve.
pub open spec fn impossible_route_answer(path: Seq<char>) -> ErrorAnswer {
    ErrorAnswer {
        status: 501,
        message: "Route "@ + path
            + " requires durable response lifecycle semantics that cannot be truthfully provided over the ChatGPT Codex upstream."@,
        error_type: Some("upstream_capability_error"@),
        code: Some("upstream_capability"@),
        param: None,
    }
}

/// The answer for a route that the upstream gives no means to serve.
pub fn impossible_upstream_route_error(path: &str) -> (error: ErrorResponse)
    ensures
        error@ == impossible_route_answer(path@),
{
    let start = concat("Route ", path);
    let message = concat(
        start.as_str(),
        " requires durable response lifecycle semantics that cannot be truthfully provided over the ChatGPT Codex upstream.",
    );
    json_error_full(
        501,
        message.as_str(),
        Some("upstream_capability_error"),
        Some("upstream_capability"),
        None,
    )
}

/// The type of error that a status stands for.
pub open spec fn status_error_type(status: u16) -> Seq<char> {
    if status == 401 {
        "authentication_error"@
    } else if status == 403 {
        "permission_error"@
    } else if status == 404 {
        "not_found_error"@
    } else if status == 429 {
        "rate_limit_error"@
    } else if 500 <= status <= 599 {
        "server_error"@
    } else {
        "invalid_request_error"@
    }
}

/// The envelope for an error that the upstream reported in another form.
pub open spec fn upstream_envelope(message: Seq<char>, error_type: Seq<char>) -> JsonTree {
    JsonTree::Object(
        no_fields().insert(
            "error"@,
            JsonTree::Object(
                no_fields().insert("message"@, JsonTree::Text(message)).insert(
                    "type"@,
                    JsonTree::Text(error_type),
                ).insert("code"@, JsonTree::Null).insert("param"@, JsonTree::Null),
            ),
        ),
    )
}

/// Whether a body is an error in the form of the public API.
pub open spec fn is_structured(body: Option<JsonTree>) -> bool {
    match body {
        Some(tree) => tree.field("error"@) is Some,
        None => false,
    }
}

/// What an error body without a structure says: its detail, or all of it.
pub open spec fn unstructured_message(raw: Seq<char>, body: Option<JsonTree>) -> Seq<char> {
    match body {
        Some(tree) => match tree.text_field("detail"@) {
            Some(detail) => detail,
            None => trim(raw),
        },
        None => trim(raw),
    }
}

/// The error body that a client is sent for what the upstream sent.
pub open spec fn upstream_error_text(
    raw: Seq<char>,
    body: Option<JsonTree>,
    status: u16,
) -> Seq<char> {
    if is_structured(body) {
        raw
    } else {
        printed(upstream_envelope(unstructured_message(raw, body), status_error_type(status)))
    }
}

/// Brings an error body of the upstream into the form of the public API.
///
/// The upstream reports some errors as `{"detail": ..}`, some in the form of the public API,
/// and some in no form at all. Clients read the second form only.
pub fn normalize_upstream_error_body(raw: &str, status: u16) -> (body: String)
    ensures
        body@ == upstream_error_text(raw@, parsed_text(raw@), status),
        is_structured(parsed_text(body@)),
{
    let parsed = parse_json(raw);
    normalize_parsed_error_body(raw, parsed, status)
}

/// Brings an error body of the upstream, with the JSON value it holds if any, into the form of
/// the public API.
pub fn normalize_parsed_error_body(raw: &str, parsed: Option<Json>, status: u16) -> (body: String)
    ensures
        body@ == upstream_error_text(raw@, opt_json(parsed), status),
        is_structured(opt_json(parsed)) || parsed_text(body@) == Some(
            upstream_envelope(
                unstructured_message(raw@, opt_json(parsed)),
                status_error_type(status),
            ),
        ),
{
    let mut detail: Option<String> = None;
    if let Some(value) = &parsed {
        if value.get("error").is_some() {
            return raw.to_owned();
        }
        if let Some(text) = value.text_field("detail") {
            detail = Some(text.to_owned());
        }
    }
    let message = match detail {
        Some(text) => text,
        None => trimmed(raw),
    };
    let envelope = make_upstream_envelope(message.as_str(), error_type_of(status));
    proof {
        lemma_envelope_is_plain(message@, status_error_type(status));
    }
    print_json(&envelope)
}

/// An envelope can be read back from its text.
proof fn lemma_envelope_is_plain(message: Seq<char>, error_type: Seq<char>)
    ensures
        plain_within(upstream_envelope(message, error_type), 64),
        is_structured(Some(upstream_envelope(message, error_type))),
{
    reveal_with_fuel(plain_within, 4);
    reveal_strlit("error");
    reveal_strlit("message");
    reveal_strlit("type");
    reveal_strlit("code");
    reveal_strlit("param");
    lemma_short_keys("error"@);
    lemma_short_keys("message"@);
    lemma_short_keys("type"@);
    lemma_short_keys("code"@);
    lemma_short_keys("param"@);
}

fn error_type_of(status: u16) -> (error_type: &'static str)
    ensures
        error_type@ == status_error_type(status),
{
    match status {
        401 => "authentication_error",
        403 => "permission_error",
        404 => "not_found_error",
        429 => "rate_limit_error",
        500..=599 => "server_error",
        _ => "invalid_request_error",
    }
}

fn make_upstream_envelope(message: &str, error_type: &str) -> (envelope: Json)
    ensures
        envelope@ == upstream_envelope(message@, error_type@),
{
    let body = JsonObject::new().with("message", Json::text(message)).with(
        "type",
        Json::text(error_type),
    ).with("code", Json::Null).with("param", Json::Null);
    Json::Object(JsonObject::new().with("error", Json::Object(body)))
}

/// An error body in the form of the public API goes to the client as it is, whatever the status.
pub proof fn law_structured_errors_pass(raw: Seq<char>, body: Option<JsonTree>, status: u16)
    requires
        is_structured(body),
    ensures
        upstream_error_text(raw, body, status) == raw,
{
}

/// What stands in for an error body of the upstream that cannot be read.
pub open spec fn unreadable_body() -> JsonTree {
    JsonTree::Object(
        no_fields().insert(
            "error"@,
            JsonTree::Object(
                no_fields().insert(
                    "message"@,
                    JsonTree::Text(
                        "Upstream request failed and response body could not be read"@,
                    ),
                ).insert("type"@, JsonTree::Text("server_error"@)),
            ),
        ),
    )
}

/// The error body for an upstream failure, where `raw` is what could be read of it.
pub fn upstream_error_body(raw: Option<&str>, status: u16) -> (body: String)
    ensures
        ({
            let text = match raw {
                Some(raw) => raw@,
                None => printed(unreadable_body()),
            };
            body@ == upstream_error_text(text, parsed_text(text), status)
        }),
{
    match raw {
        Some(raw) => normalize_upstream_error_body(raw, status),
        None => {
            let body = JsonObject::new().with(
                "message",
                Json::text("Upstream request failed and response body could not be read"),
            ).with("type", Json::text("server_error"));
            let text = print_json(&Json::Object(JsonObject::new().with("error", Json::Object(body))));
            normalize_upstream_error_body(text.as_str(), status)
        },
    }
}

/// What a client is told where the upstream cannot be reached for a reason.
pub open spec fn open_error_answer(reason: Seq<char>) -> ErrorAnswer {
    if contains_text(reason, "Cannot read"@) && contains_text(reason, "codex-proxy login"@) {
        plain_error(
            503,
            "Codex upstream authentication is missing. Run: docker exec -it codex-proxy codex-proxy login"@,
        )
    } else if contains_text(reason, "refresh_token rejected"@) {
        plain_error(
            503,
            "Codex refresh token is no longer valid. Run: docker exec -it codex-proxy codex-proxy login"@,
        )
    } else {
        plain_error(502, "Failed to open upstream stream"@)
    }
}

/// The answer where the upstream cannot be reached, by the words of the failure.
pub fn upstream_open_error_response(reason: &str) -> (error: ErrorResponse)
    ensures
        error@ == open_error_answer(reason@),
{
    if has_text(reason, "Cannot read") && has_text(reason, "codex-proxy login") {
        return json_error(
            503,
            "Codex upstream authentication is missing. Run: docker exec -it codex-proxy codex-proxy login",
        );
    }
    if has_text(reason, "refresh_token rejected") {
        return json_error(
            503,
            "Codex refresh token is no longer valid. Run: docker exec -it codex-proxy codex-proxy login",
        );
    }
    json_error(502, "Failed to open upstream stream")
}

} // verus!
