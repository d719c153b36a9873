use vstd::prelude::*;

use std::time::SystemTime;

use crate::base64_bridge::{base64_bytes, decode_base64_url};
use crate::clock::{now_unix, unix_time};
use crate::errors::{open_error_answer, plain_error};
use crate::json::{
    group_json, no_fields, opt_field, opt_json, opt_tree, parse_json_bytes, Json, JsonObject,
    JsonTree,
};
use crate::serde_bridge::parsed_bytes;
use crate::text::{
    concat, contains_text, is_blank, opt_string, opt_text, pieces, split_on, stands_at, text_or,
    texts, trim,
};

verus! {

broadcast use group_json;

/// The id under which this proxy signs in.
pub const CLIENT_ID: &'static str = "app_EMoamEEZ73f0CkXaXp7hrann";

/// What a sign-in asks for.
pub const SCOPE: &'static str = "openid profile email";

/// How many seconds before its end a token counts as expired.
pub const EXPIRY_SKEW_S: i64 = 60;

/// How many seconds a sign-in is waited for.
pub const POLL_TIMEOUT_S: u64 = 900;

/// How many seconds lie between two questions for a sign-in, at least.
pub const POLL_MIN_INTERVAL_S: u64 = 5;

/// Where tokens are issued, unless another place is given.
pub fn auth_base(given: Option<&str>) -> (base: String)
    ensures
        base@ == (if trim(text_or(opt_text(given), ""@)).len() > 0 {
            text_or(opt_text(given), ""@)
        } else {
            "https://auth.openai.com"@
        }),
{
    proof {
        reveal_strlit("");
        assert(trim(""@) =~= ""@);
    }
    match given {
        Some(given) => if is_blank(given) {
            "https://auth.openai.com".to_owned()
        } else {
            given.to_owned()
        },
        None => "https://auth.openai.com".to_owned(),
    }
}

/// Where a device code is asked for.
pub fn device_code_url(auth_base: &str) -> (url: String)
    ensures
        url@ == auth_base@ + "/api/accounts/deviceauth/usercode"@,
{
    concat(auth_base, "/api/accounts/deviceauth/usercode")
}

/// Where a device code is exchanged for an authorization code.
pub fn device_token_url(auth_base: &str) -> (url: String)
    ensures
        url@ == auth_base@ + "/api/accounts/deviceauth/token"@,
{
    concat(auth_base, "/api/accounts/deviceauth/token")
}

/// Where tokens are issued.
pub fn oauth_token_url(auth_base: &str) -> (url: String)
    ensures
        url@ == auth_base@ + "/oauth/token"@,
{
    concat(auth_base, "/oauth/token")
}

/// Where the sign-in is sent back to.
pub fn redirect_uri(auth_base: &str) -> (url: String)
    ensures
        url@ == auth_base@ + "/deviceauth/callback"@,
{
    concat(auth_base, "/deviceauth/callback")
}

/// Where the user approves the sign-in.
pub fn verify_url(auth_base: &str) -> (url: String)
    ensures
        url@ == auth_base@ + "/codex/device"@,
{
    concat(auth_base, "/codex/device")
}

/// The tokens of a sign-in.
pub struct TokenData {
    pub access_token: String,
    pub refresh_token: String,
    pub id_token: String,
    pub expires_at: Option<i64>,
    pub account_id: Option<String>,
}

/// The tokens of a sign-in, by the texts involved.
#[verifier::ext_equal]
pub struct Tokens {
    pub access_token: Seq<char>,
    pub refresh_token: Seq<char>,
    pub id_token: Seq<char>,
    pub expires_at: Option<i64>,
    pub account_id: Option<Seq<char>>,
}

impl View for TokenData {
    type V = Tokens;

    open spec fn view(&self) -> Tokens {
        Tokens {
            access_token: self.access_token@,
            refresh_token: self.refresh_token@,
            id_token: self.id_token@,
            expires_at: self.expires_at,
            account_id: opt_string(self.account_id),
        }
    }
}

/// Whether a token counts as expired: shortly before its end, or where its end is not known.
pub open spec fn token_expired(expires_at: Option<i64>, now: i64) -> bool {
    match expires_at {
        Some(end) => now >= end - EXPIRY_SKEW_S,
        None => true,
    }
}

/// Whether a token counts as expired, by a given clock.
pub fn is_expired_at(expires_at: Option<i64>, now: i64) -> (answer: bool)
    ensures
        answer == token_expired(expires_at, now),
{
    match expires_at {
        Some(end) => now as i128 >= end as i128 - EXPIRY_SKEW_S as i128,
        None => true,
    }
}

/// Whether a token counts as expired.
pub fn is_expired(expires_at: Option<i64>) -> (answer: bool)
    ensures
        exists|instant: SystemTime|
            answer == token_expired(expires_at, #[trigger] unix_time(instant)),
        expires_at is None ==> answer,
{
    is_expired_at(expires_at, now_unix())
}

/// The claims of a token: what its second part holds, where that can be read.
pub open spec fn token_claims(jwt: Seq<char>) -> Option<JsonTree> {
    let parts = split_on(jwt, '.');
    if parts.len() < 2 {
        None
    } else {
        match base64_bytes(parts[1]) {
            Some(bytes) => parsed_bytes(bytes),
            None => None,
        }
    }
}

/// Reads the claims of a token.
pub fn parse_jwt_claims(jwt: &str) -> (claims: Option<Json>)
    ensures
        opt_json(claims) == token_claims(jwt@),
{
    let parts = pieces(jwt, '.');
    if parts.len() < 2 {
        return None;
    }
    proof {
        assert(texts(parts@)[1] == parts@[1]@);
    }
    match decode_base64_url(parts[1].as_str()) {
        Some(bytes) => parse_json_bytes(bytes.as_slice()),
        None => None,
    }
}

/// When a token with these claims ends.
pub open spec fn claimed_end(claims: Option<JsonTree>) -> Option<i64> {
    match claims {
        Some(claims) => claims.integer_field("exp"@),
        None => None,
    }
}

/// The account that a token with these claims is for.
pub open spec fn claimed_account(claims: Option<JsonTree>) -> Option<Seq<char>> {
    match opt_field(claims, "https://api.openai.com/auth"@) {
        Some(auth) => auth.text_field("chatgpt_account_id"@),
        None => None,
    }
}

/// When a token with these claims ends.
pub fn end_of_claims(claims: Option<&Json>) -> (end: Option<i64>)
    ensures
        end == claimed_end(opt_tree(claims)),
{
    match claims {
        Some(claims) => claims.integer_field("exp"),
        None => None,
    }
}

/// The account that a token with these claims is for.
pub fn account_of_claims(claims: Option<&Json>) -> (account: Option<String>)
    ensures
        opt_string(account) == claimed_account(opt_tree(claims)),
{
    match claims {
        Some(claims) => match claims.get("https://api.openai.com/auth") {
            Some(auth) => match auth.text_field("chatgpt_account_id") {
                Some(account) => Some(account.to_owned()),
                None => None,
            },
            None => None,
        },
        None => None,
    }
}

/// When a token ends, as it says itself.
pub fn parse_jwt_exp(jwt: &str) -> (end: Option<i64>)
    ensures
        end == claimed_end(token_claims(jwt@)),
{
    let claims = parse_jwt_claims(jwt);
    end_of_claims(claims.as_ref())
}

/// The account that a token is for, as it says itself.
pub fn extract_account_id(jwt: &str) -> (account: Option<String>)
    ensures
        opt_string(account) == claimed_account(token_claims(jwt@)),
{
    let claims = parse_jwt_claims(jwt);
    account_of_claims(claims.as_ref())
}

/// Tokens as they were stored, with their end where it was not stored with them.
pub fn loaded_token(token: TokenData) -> (loaded: TokenData)
    ensures
        loaded@ == (Tokens {
            expires_at: match token.expires_at {
                Some(end) => Some(end),
                None => claimed_end(token_claims(token.access_token@)),
            },
            ..token@
        }),
{
    let mut token = token;
    if token.expires_at.is_none() {
        token.expires_at = parse_jwt_exp(token.access_token.as_str());
    }
    token
}

/// The tokens that a sign-in or a refresh gives.
pub struct RefreshedTokens {
    pub access_token: String,
    pub refresh_token: String,
    pub id_token: String,
}

/// The tokens that a refresh gives, or what its answer lacks. An answer without a token for the
/// next refresh leaves the one that there is.
pub open spec fn refreshed(data: JsonTree, old_refresh: Seq<char>) -> Result<
    (Seq<char>, Seq<char>, Seq<char>),
    Seq<char>,
> {
    match (data.text_field("access_token"@), data.text_field("id_token"@)) {
        (None, _) => Err("refresh response missing access_token"@),
        (_, None) => Err("refresh response missing id_token"@),
        (Some(access), Some(id)) => Ok(
            (access, text_or(data.text_field("refresh_token"@), old_refresh), id),
        ),
    }
}

/// What tokens are, where they were given.
pub open spec fn tokens_outcome(outcome: Result<RefreshedTokens, &'static str>) -> Result<
    (Seq<char>, Seq<char>, Seq<char>),
    Seq<char>,
> {
    match outcome {
        Ok(tokens) => Ok((tokens.access_token@, tokens.refresh_token@, tokens.id_token@)),
        Err(message) => Err(message@),
    }
}

/// Reads the answer to a refresh.
pub fn parse_refresh_response(data: &Json, old_refresh: &str) -> (tokens: Result<
    RefreshedTokens,
    &'static str,
>)
    ensures
        tokens_outcome(tokens) == refreshed(data@, old_refresh@),
{
    let access_token = match data.text_field("access_token") {
        Some(token) => token.to_owned(),
        None => {
            return Err("refresh response missing access_token");
        },
    };
    let id_token = match data.text_field("id_token") {
        Some(token) => token.to_owned(),
        None => {
            return Err("refresh response missing id_token");
        },
    };
    let refresh_token = match data.text_field("refresh_token") {
        Some(token) => token.to_owned(),
        None => old_refresh.to_owned(),
    };
    Ok(RefreshedTokens { access_token, refresh_token, id_token })
}

/// The tokens that an exchange gives, or what its answer lacks.
pub open spec fn exchanged(data: JsonTree) -> Result<
    (Seq<char>, Seq<char>, Seq<char>),
    Seq<char>,
> {
    if data.text_field("access_token"@) is None {
        Err("token-exchange response missing access_token"@)
    } else if data.text_field("refresh_token"@) is None {
        Err("token-exchange response missing refresh_token"@)
    } else if data.text_field("id_token"@) is None {
        Err("token-exchange response missing id_token"@)
    } else {
        Ok(
            (
                data.text_field("access_token"@)->0,
                data.text_field("refresh_token"@)->0,
                data.text_field("id_token"@)->0,
            ),
        )
    }
}

/// Reads the answer to the exchange of an authorization code.
pub fn parse_exchange_response(data: &Json) -> (tokens: Result<RefreshedTokens, &'static str>)
    ensures
        tokens_outcome(tokens) == exchanged(data@),
{
    let access_token = match data.text_field("access_token") {
        Some(token) => token.to_owned(),
        None => {
            return Err("token-exchange response missing access_token");
        },
    };
    let refresh_token = match data.text_field("refresh_token") {
        Some(token) => token.to_owned(),
        None => {
            return Err("token-exchange response missing refresh_token");
        },
    };
    let id_token = match data.text_field("id_token") {
        Some(token) => token.to_owned(),
        None => {
            return Err("token-exchange response missing id_token");
        },
    };
    Ok(RefreshedTokens { access_token, refresh_token, id_token })
}

/// The account that new tokens are for: what they say themselves, or else what was known.
pub open spec fn next_account(
    access: Option<JsonTree>,
    id: Option<JsonTree>,
    known: Option<Seq<char>>,
) -> Option<Seq<char>> {
    if claimed_account(access) is Some {
        claimed_account(access)
    } else if claimed_account(id) is Some {
        claimed_account(id)
    } else {
        known
    }
}

/// What is kept of new tokens.
pub fn next_token_data(tokens: RefreshedTokens, known_account: Option<String>) -> (next: TokenData)
    ensures
        next@ == (Tokens {
            access_token: tokens.access_token@,
            refresh_token: tokens.refresh_token@,
            id_token: tokens.id_token@,
            expires_at: claimed_end(token_claims(tokens.access_token@)),
            account_id: next_account(
                token_claims(tokens.access_token@),
                token_claims(tokens.id_token@),
                opt_string(known_account),
            ),
        }),
{
    let expires_at = parse_jwt_exp(tokens.access_token.as_str());
    let account_id = match extract_account_id(tokens.access_token.as_str()) {
        Some(account) => Some(account),
        None => match extract_account_id(tokens.id_token.as_str()) {
            Some(account) => Some(account),
            None => known_account,
        },
    };
    TokenData {
        access_token: tokens.access_token,
        refresh_token: tokens.refresh_token,
        id_token: tokens.id_token,
        expires_at,
        account_id,
    }
}

/// The body of a request for a refresh.
pub fn refresh_request_body(refresh_token: &str) -> (body: Json)
    ensures
        body@ == JsonTree::Object(
            no_fields().insert("client_id"@, JsonTree::Text(CLIENT_ID@)).insert(
                "grant_type"@,
                JsonTree::Text("refresh_token"@),
            ).insert("refresh_token"@, JsonTree::Text(refresh_token@)).insert(
                "scope"@,
                JsonTree::Text(SCOPE@),
            ),
        ),
{
    Json::Object(
        JsonObject::new().with("client_id", Json::text(CLIENT_ID)).with(
            "grant_type",
            Json::text("refresh_token"),
        ).with("refresh_token", Json::text(refresh_token)).with("scope", Json::text(SCOPE)),
    )
}

/// What is said of a refresh that the upstream refused.
pub open spec fn rejected_refresh(status: Seq<char>, body: Seq<char>) -> Seq<char> {
    "refresh_token rejected by upstream: status="@ + status + " body="@ + body
}

/// What is said of a refresh that the upstream refused.
pub fn refresh_rejected_message(status: &str, body: &str) -> (message: String)
    ensures
        message@ == rejected_refresh(status@, body@),
{
    let start = concat("refresh_token rejected by upstream: status=", status);
    let middle = concat(start.as_str(), " body=");
    concat(middle.as_str(), body)
}

/// What is said where the stored tokens cannot be read.
pub open spec fn missing_auth(path: Seq<char>) -> Seq<char> {
    "Cannot read "@ + path + ". Run: docker exec -it codex-proxy codex-proxy login"@
}

/// What is said where the stored tokens cannot be read.
pub fn missing_auth_message(path: &str) -> (message: String)
    ensures
        message@ == missing_auth(path@),
{
    let start = concat("Cannot read ", path);
    concat(start.as_str(), ". Run: docker exec -it codex-proxy codex-proxy login")
}

/// Clients are told to have the operator sign in where there are no tokens to be had.
pub proof fn law_missing_tokens_are_told(path: Seq<char>)
    ensures
        open_error_answer(missing_auth(path)) == plain_error(
            503,
            "Codex upstream authentication is missing. Run: docker exec -it codex-proxy codex-proxy login"@,
        ),
{
    let message = missing_auth(path);
    let tail = ". Run: docker exec -it codex-proxy codex-proxy login"@;
    reveal_strlit("Cannot read ");
    reveal_strlit("Cannot read");
    reveal_strlit("codex-proxy login");
    reveal_strlit(". Run: docker exec -it codex-proxy codex-proxy login");
    assert(stands_at(message, "Cannot read"@, 0)) by {
        assert(message.subrange(0, 11) =~= "Cannot read"@);
    }
    let at = message.len() - 17;
    assert(stands_at(message, "codex-proxy login"@, at)) by {
        assert(tail.len() == 52);
        assert(tail.subrange(35, 52) =~= "codex-proxy login"@);
        assert(message.subrange(at, at + 17) =~= tail.subrange(35, 52));
    }
}

/// Clients are told to have the operator sign in where a refresh was refused.
pub proof fn law_refused_refresh_is_told(status: Seq<char>, body: Seq<char>)
    ensures
        open_error_answer(rejected_refresh(status, body)).status == 503,
        !contains_text(rejected_refresh(status, body), "Cannot read"@) ==> open_error_answer(
            rejected_refresh(status, body),
        ) == plain_error(
            503,
            "Codex refresh token is no longer valid. Run: docker exec -it codex-proxy codex-proxy login"@,
        ),
{
    let message = rejected_refresh(status, body);
    reveal_strlit("refresh_token rejected by upstream: status=");
    reveal_strlit("refresh_token rejected");
    assert(stands_at(message, "refresh_token rejected"@, 0)) by {
        assert(message.subrange(0, 22) =~= "refresh_token rejected"@);
    }
}

/// A code by which a user approves a sign-in.
pub struct DeviceCode {
    pub device_auth_id: String,
    pub user_code: String,
    pub interval: u64,
}

/// The code that an answer gives, or what it lacks: the id, the code and the seconds to wait
/// between questions.
pub open spec fn device_code(data: JsonTree) -> Result<(Seq<char>, Seq<char>, u64), Seq<char>> {
    let code = match data.field("user_code"@) {
        Some(code) => code.as_text(),
        None => data.text_field("usercode"@),
    };
    if data.text_field("device_auth_id"@) is None {
        Err("device-code response missing device_auth_id"@)
    } else if code is None {
        Err("device-code response missing user_code"@)
    } else {
        let interval = match data.integer_field("interval"@) {
            Some(seconds) => if seconds < 1 {
                1
            } else {
                seconds as u64
            },
            None => POLL_MIN_INTERVAL_S,
        };
        Ok((data.text_field("device_auth_id"@)->0, code->0, interval))
    }
}

/// Reads the answer to a request for a device code.
pub fn parse_device_code(data: &Json) -> (code: Result<DeviceCode, &'static str>)
    ensures
        (match code {
            Ok(code) => device_code(data@) == Ok::<(Seq<char>, Seq<char>, u64), Seq<char>>(
                (code.device_auth_id@, code.user_code@, code.interval),
            ),
            Err(message) => device_code(data@) == Err::<(Seq<char>, Seq<char>, u64), Seq<char>>(
                message@,
            ),
        }),
{
    let device_auth_id = match data.text_field("device_auth_id") {
        Some(id) => id.to_owned(),
        None => {
            return Err("device-code response missing device_auth_id");
        },
    };
    let code = match data.get("user_code") {
        Some(code) => code.as_text(),
        None => data.text_field("usercode"),
    };
    let user_code = match code {
        Some(code) => code.to_owned(),
        None => {
            return Err("device-code response missing user_code");
        },
    };
    let interval: u64 = match data.integer_field("interval") {
        Some(seconds) => if seconds < 1 {
            1
        } else {
            seconds as u64
        },
        None => POLL_MIN_INTERVAL_S,
    };
    Ok(DeviceCode { device_auth_id, user_code, interval })
}

/// The body of a request for a device code.
pub fn device_code_body() -> (body: Json)
    ensures
        body@ == JsonTree::Object(no_fields().insert("client_id"@, JsonTree::Text(CLIENT_ID@))),
{
    Json::Object(JsonObject::new().with("client_id", Json::text(CLIENT_ID)))
}

/// The body of a question whether a sign-in was approved.
pub fn device_poll_body(code: &DeviceCode) -> (body: Json)
    ensures
        body@ == JsonTree::Object(
            no_fields().insert("device_auth_id"@, JsonTree::Text(code.device_auth_id@)).insert(
                "user_code"@,
                JsonTree::Text(code.user_code@),
            ),
        ),
{
    Json::Object(
        JsonObject::new().with("device_auth_id", Json::text(code.device_auth_id.as_str())).with(
            "user_code",
            Json::text(code.user_code.as_str()),
        ),
    )
}

/// How many seconds lie between two questions for a sign-in.
pub fn poll_interval(code: &DeviceCode) -> (seconds: u64)
    ensures
        seconds == (if code.interval < POLL_MIN_INTERVAL_S {
            POLL_MIN_INTERVAL_S
        } else {
            code.interval
        }),
{
    if code.interval < POLL_MIN_INTERVAL_S {
        POLL_MIN_INTERVAL_S
    } else {
        code.interval
    }
}

/// An authorization code, with what proves that it was asked for here.
pub struct AuthCodeResult {
    pub authorization_code: String,
    pub code_verifier: String,
}

/// What to do after the answer to a question for a sign-in.
pub enum PollStep {
    /// The sign-in was approved.
    Approved(AuthCodeResult),
    /// The question failed.
    Failed,
    /// The time for the sign-in is over.
    TimedOut,
    /// To be asked again later.
    Wait,
}

/// The codes that an answer gives.
pub open spec fn granted(data: Option<JsonTree>) -> Option<(Seq<char>, Seq<char>)> {
    match data {
        Some(data) => match (
            data.text_field("authorization_code"@),
            data.text_field("code_verifier"@),
        ) {
            (Some(code), Some(verifier)) => Some((code, verifier)),
            _ => None,
        },
        None => None,
    }
}

/// Whether an answer says that a sign-in is still waited for.
pub open spec fn still_pending(status: u16) -> bool {
    status == 200 || status == 403 || status == 404
}

/// Decides what to do after the answer to a question for a sign-in: its status, the value that
/// it holds where the status is that of success, and whether the time is over.
pub fn poll_step(status: u16, data: Option<&Json>, time_over: bool) -> (step: PollStep)
    ensures
        (match step {
            PollStep::Approved(code) => status == 200 && granted(opt_tree(data)) == Some(
                (code.authorization_code@, code.code_verifier@),
            ),
            PollStep::Failed => !still_pending(status),
            PollStep::TimedOut => still_pending(status) && !(status == 200 && granted(
                opt_tree(data),
            ) is Some) && time_over,
            PollStep::Wait => still_pending(status) && !(status == 200 && granted(
                opt_tree(data),
            ) is Some) && !time_over,
        }),
{
    if status == 200 {
        if let Some(data) = data {
            if let Some(code) = data.text_field("authorization_code") {
                if let Some(verifier) = data.text_field("code_verifier") {
                    return PollStep::Approved(
                        AuthCodeResult {
                            authorization_code: code.to_owned(),
                            code_verifier: verifier.to_owned(),
                        },
                    );
                }
            }
        }
    } else if status != 403 && status != 404 {
        return PollStep::Failed;
    }
    if time_over {
        PollStep::TimedOut
    } else {
        PollStep::Wait
    }
}

/// The form by which an authorization code is exchanged for tokens.
pub fn exchange_form(code: &AuthCodeResult, auth_base: &str) -> (form: Vec<(&'static str, String)>)
    ensures
        form@.len() == 5,
        form@[0].0@ == "grant_type"@ && form@[0].1@ == "authorization_code"@,
        form@[1].0@ == "code"@ && form@[1].1@ == code.authorization_code@,
        form@[2].0@ == "redirect_uri"@ && form@[2].1@ == auth_base@ + "/deviceauth/callback"@,
        form@[3].0@ == "client_id"@ && form@[3].1@ == CLIENT_ID@,
        form@[4].0@ == "code_verifier"@ && form@[4].1@ == code.code_verifier@,
{
    let mut form: Vec<(&'static str, String)> = Vec::new();
    form.push(("grant_type", "authorization_code".to_owned()));
    form.push(("code", code.authorization_code.clone()));
    form.push(("redirect_uri", redirect_uri(auth_base)));
    form.push(("client_id", CLIENT_ID.to_owned()));
    form.push(("code_verifier", code.code_verifier.clone()));
    form
}

} // verus!
