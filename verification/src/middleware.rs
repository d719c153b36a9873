use vstd::prelude::*;

use crate::errors::{json_error, plain_error, ErrorResponse};
use crate::ids::{is_grouped_id, new_request_id};
use crate::logging::{classify_pathname, client_address, forwarded_client_ip, path_kind};
use crate::state::RequestContext;
use crate::text::{
    first_position, lower, lowered, opt_string, opt_text, parts_around, same_text, trim, trimmed,
};

verus! {

/// The token of an `Authorization` header of the bearer scheme.
pub open spec fn bearer_token(value: Seq<char>) -> Option<Seq<char>> {
    let at = first_position(value, ' ');
    let token = trim(value.skip(at + 1));
    if value.contains(' ') && lower(trim(value.take(at))) == "bearer"@ && token.len() > 0 {
        Some(token)
    } else {
        None
    }
}

/// Reads the token of an `Authorization` header of the bearer scheme.
pub fn parse_bearer(value: &str) -> (token: Option<String>)
    ensures
        token is Some == bearer_token(value@) is Some,
        token matches Some(token) ==> Some(token@) == bearer_token(value@),
{
    match parts_around(value, ' ') {
        Some((scheme, rest)) => {
            let scheme = lowered(trimmed(scheme.as_str()).as_str());
            let token = trimmed(rest.as_str());
            if same_text(scheme.as_str(), "bearer") && !token.as_str().is_empty() {
                Some(token)
            } else {
                None
            }
        },
        None => None,
    }
}

/// Whether a request may go on: the route is open to all, or no key is asked for, or the request
/// brings the key.
pub open spec fn may_pass(
    path: Seq<char>,
    key: Option<Seq<char>>,
    authorization: Option<Seq<char>>,
) -> bool {
    ||| path == "/healthz"@
    ||| key is None
    ||| match authorization {
        Some(value) => bearer_token(value) == key,
        None => false,
    }
}

/// Refuses a request that does not bring the key, where one is asked for.
pub fn authorize(path: &str, key: Option<&str>, authorization: Option<&str>) -> (outcome: Result<
    (),
    ErrorResponse,
>)
    ensures
        outcome is Ok == may_pass(path@, opt_text(key), opt_text(authorization)),
        outcome matches Err(error) ==> error@ == plain_error(401, "Invalid or missing API key"@),
{
    if same_text(path, "/healthz") {
        return Ok(());
    }
    let key = match key {
        Some(key) => key,
        None => {
            return Ok(());
        },
    };
    let token = match authorization {
        Some(value) => parse_bearer(value),
        None => None,
    };
    if let Some(token) = token {
        if same_text(token.as_str(), key) {
            return Ok(());
        }
    }
    Err(json_error(401, "Invalid or missing API key"))
}

/// With a key set, no request reaches a route that is not open to all without that very key.
pub proof fn law_key_is_needed(
    path: Seq<char>,
    key: Seq<char>,
    authorization: Option<Seq<char>>,
)
    requires
        path != "/healthz"@,
        may_pass(path, Some(key), authorization),
    ensures
        authorization is Some,
        bearer_token(authorization->0) == Some(key),
{
}

/// What is known of a request from its head: its id is made anew.
pub fn request_context(
    method: &str,
    path: &str,
    content_type: Option<String>,
    forwarded_for: Option<&str>,
    connecting: Option<&str>,
    client_request_id: Option<String>,
) -> (context: RequestContext)
    ensures
        is_grouped_id(context@.request_id),
        context@.method == method@,
        context@.path == path@,
        context@.route_kind == path_kind(path@),
        context@.content_type == opt_string(content_type),
        context@.client_ip == client_address(opt_text(forwarded_for), opt_text(connecting)),
        context@.client_request_id == opt_string(client_request_id),
{
    RequestContext {
        request_id: new_request_id(),
        method: method.to_owned(),
        path: path.to_owned(),
        route_kind: classify_pathname(path),
        content_type,
        client_ip: forwarded_client_ip(forwarded_for, connecting),
        client_request_id,
    }
}

} // verus!
