use vstd::prelude::*;

use crate::errors::{
    impossible_route_answer, open_error_answer, plain_error, status_error_type, unreadable_body,
    unstructured_message, unsupported_route_answer, upstream_envelope, upstream_error_text,
};
use crate::json::{field_of, text_of, JsonTree};
use crate::serde_bridge::printed;
use crate::text::{contains_text, opt_string, stands_at, trim};
use crate::types::{error_fields, ErrorBody};

verus! {

/// What tells the names in an error apart.
proof fn lemma_error_words()
    ensures
        "error"@.len() == 5 && "error"@[0] == 'e',
        "message"@.len() == 7,
        "type"@.len() == 4 && "type"@[0] == 't',
        "code"@.len() == 4 && "code"@[0] == 'c',
        "param"@.len() == 5 && "param"@[0] == 'p',
        "detail"@.len() == 6,
{
    reveal_strlit("error");
    reveal_strlit("message");
    reveal_strlit("type");
    reveal_strlit("code");
    reveal_strlit("param");
    reveal_strlit("detail");
}

/// A plain error says its status and its message, and nothing more.
pub proof fn law_plain_errors_say_their_message(status: u16, message: Seq<char>)
    ensures
        plain_error(status, message).status == status,
        plain_error(status, message).message == message,
        plain_error(status, message).error_type is None,
        plain_error(status, message).code is None,
        plain_error(status, message).param is None,
{
}

/// Whether an error type is the one that a status stands for.
pub open spec fn fits_status(kind: Seq<char>, status: u16) -> bool {
    &&& status == 401 ==> kind == "authentication_error"@
    &&& status == 403 ==> kind == "permission_error"@
    &&& status == 404 ==> kind == "not_found_error"@
    &&& status == 429 ==> kind == "rate_limit_error"@
    &&& 500 <= status < 600 ==> kind == "server_error"@
    &&& status != 401 && status != 403 && status != 404 && status != 429 && !(500 <= status < 600)
        ==> kind == "invalid_request_error"@
}

/// An error of the upstream that is not in the form of the public API is put into it: with what
/// the upstream said, and with the type that the status stands for.
pub proof fn law_other_errors_are_told(
    raw: Seq<char>,
    body: Option<JsonTree>,
    status: u16,
) -> (told: JsonTree)
    requires
        body is Some ==> body->0.field("error"@) is None,
    ensures
        upstream_error_text(raw, body, status) == printed(told),
        ({
            let error = told.field("error"@);
            let detail = match body {
                Some(body) => body.text_field("detail"@),
                None => None,
            };
            &&& error is Some
            &&& error->0.text_field("message"@) == Some(
                if detail is Some {
                    detail->0
                } else {
                    trim(raw)
                },
            )
            &&& error->0.text_field("type"@) is Some
            &&& fits_status(error->0.text_field("type"@)->0, status)
            &&& error->0.field("code"@) == Some(JsonTree::Null)
            &&& error->0.field("param"@) == Some(JsonTree::Null)
        }),
{
    lemma_error_words();
    upstream_envelope(
        unstructured_message(raw, body),
        status_error_type(status),
    )
}

/// An error of the upstream in the form of the public API is passed on as it came.
pub proof fn law_known_errors_are_passed_on(raw: Seq<char>, body: JsonTree, status: u16)
    requires
        body.field("error"@) is Some,
    ensures
        upstream_error_text(raw, Some(body), status) == raw,
{
}

/// An error of the upstream that cannot be read is told as one of the server.
pub proof fn law_unreadable_errors_are_told()
    ensures
        ({
            let error = unreadable_body().field("error"@);
            &&& error is Some
            &&& error->0.text_field("message"@) == Some(
                "Upstream request failed and response body could not be read"@,
            )
            &&& error->0.text_field("type"@) == Some("server_error"@)
        }),
{
    lemma_error_words();
}

/// A failure to reach the upstream is told as one of the gateway, unless it is that the proxy is
/// not signed in.
pub proof fn law_open_errors_are_told(reason: Seq<char>)
    ensures
        ({
            let answer = open_error_answer(reason);
            let missing = contains_text(reason, "Cannot read"@) && contains_text(
                reason,
                "codex-proxy login"@,
            );
            let rejected = contains_text(reason, "refresh_token rejected"@);
            &&& answer.status == (if missing || rejected {
                503u16
            } else {
                502u16
            })
            &&& missing || rejected ==> contains_text(answer.message, "codex-proxy login"@)
            &&& !missing && !rejected ==> answer.message == "Failed to open upstream stream"@
            &&& missing ==> stands_at(
                answer.message,
                "Codex upstream authentication is missing"@,
                0,
            )
            &&& !missing && rejected ==> stands_at(
                answer.message,
                "Codex refresh token is no longer valid"@,
                0,
            )
        }),
{
    let first =
        "Codex upstream authentication is missing. Run: docker exec -it codex-proxy codex-proxy login"@;
    let second =
        "Codex refresh token is no longer valid. Run: docker exec -it codex-proxy codex-proxy login"@;
    reveal_strlit(
        "Codex upstream authentication is missing. Run: docker exec -it codex-proxy codex-proxy login",
    );
    reveal_strlit(
        "Codex refresh token is no longer valid. Run: docker exec -it codex-proxy codex-proxy login",
    );
    reveal_strlit("codex-proxy login");
    reveal_strlit("Codex upstream authentication is missing");
    reveal_strlit("Codex refresh token is no longer valid");
    assert(first.subrange(first.len() - 17, first.len() as int) =~= "codex-proxy login"@);
    assert(stands_at(first, "codex-proxy login"@, first.len() - 17));
    assert(second.subrange(second.len() - 17, second.len() as int) =~= "codex-proxy login"@);
    assert(stands_at(second, "codex-proxy login"@, second.len() - 17));
    assert(first.subrange(0, 40) =~= "Codex upstream authentication is missing"@);
    assert(second.subrange(0, 38) =~= "Codex refresh token is no longer valid"@);
}

/// A route that is known and not served is named in the answer, with a status that says so.
pub proof fn law_unserved_routes_are_named(path: Seq<char>)
    ensures
        unsupported_route_answer(path).status == 501,
        stands_at(unsupported_route_answer(path).message, path, 6),
        unsupported_route_answer(path).error_type == Some("unsupported_route_error"@),
        unsupported_route_answer(path).code == Some("unsupported_route"@),
        unsupported_route_answer(path).param is None,
        impossible_route_answer(path).status == 501,
        stands_at(impossible_route_answer(path).message, path, 6),
        impossible_route_answer(path).error_type == Some("upstream_capability_error"@),
        impossible_route_answer(path).code == Some("upstream_capability"@),
        impossible_route_answer(path).param is None,
{
    reveal_strlit("Route ");
    let first = unsupported_route_answer(path).message;
    let second = impossible_route_answer(path).message;
    assert(first.subrange(6, 6int + path.len()) =~= path);
    assert(second.subrange(6, 6int + path.len()) =~= path);
}

/// An error is reported with its message, and with a type, a code and a parameter exactly where it
/// has them.
pub proof fn law_error_is_reported_whole(body: ErrorBody)
    ensures
        text_of(error_fields(body), "message"@) == Some(body.message@),
        text_of(error_fields(body), "type"@) == opt_string(body.error_type),
        text_of(error_fields(body), "code"@) == opt_string(body.code),
        text_of(error_fields(body), "param"@) == opt_string(body.param),
        body.error_type is None ==> field_of(error_fields(body), "type"@) is None,
        body.code is None ==> field_of(error_fields(body), "code"@) is None,
        body.param is None ==> field_of(error_fields(body), "param"@) is None,
{
    lemma_error_words();
}

} // verus!
