use base64::engine::general_purpose::URL_SAFE_NO_PAD;
use base64::Engine;

use codex_proxy::codex_auth::{
    account_of_claims, auth_base, device_code_body, device_code_url, device_poll_body,
    device_token_url, exchange_form, extract_account_id, is_expired, is_expired_at, loaded_token,
    missing_auth_message, next_token_data, oauth_token_url, parse_device_code,
    parse_exchange_response, parse_jwt_claims, parse_jwt_exp, parse_refresh_response,
    poll_interval, poll_step, redirect_uri, refresh_rejected_message, refresh_request_body,
    verify_url, AuthCodeResult, PollStep, RefreshedTokens, TokenData,
};
use codex_proxy::errors::upstream_open_error_response;
use codex_proxy::json::{parse_json, to_value, Json};

fn json(text: &str) -> Json {
    parse_json(text).expect("valid JSON")
}

fn value(text: &str) -> serde_json::Value {
    serde_json::from_str(text).expect("valid JSON")
}

fn make_jwt(payload: &str) -> String {
    let header = URL_SAFE_NO_PAD.encode(b"{\"alg\":\"none\"}");
    let body = URL_SAFE_NO_PAD.encode(payload);
    format!("{header}.{body}.sig")
}

#[test]
fn parse_jwt_exp_reads_exp_claim() {
    let jwt = make_jwt("{\"exp\":1700000000}");
    assert_eq!(parse_jwt_exp(&jwt), Some(1_700_000_000));
}

#[test]
fn parse_jwt_exp_returns_none_for_malformed() {
    assert_eq!(parse_jwt_exp("not-a-jwt"), None);
    assert_eq!(parse_jwt_exp("only.one"), None);
    assert_eq!(parse_jwt_exp("one.@invalid-base64@.three"), None);
}

#[test]
fn refresh_response_preserves_old_refresh_token_when_absent() {
    let data = json(r#"{"access_token":"new-access","id_token":"new-id"}"#);
    let out = parse_refresh_response(&data, "old-refresh").ok().expect("tokens");
    assert_eq!(out.access_token, "new-access");
    assert_eq!(out.id_token, "new-id");
    assert_eq!(out.refresh_token, "old-refresh");
}

#[test]
fn refresh_response_uses_new_refresh_token_when_present() {
    let data = json(
        r#"{"access_token":"new-access","id_token":"new-id","refresh_token":"new-refresh"}"#,
    );
    let out = parse_refresh_response(&data, "old-refresh").ok().expect("tokens");
    assert_eq!(out.refresh_token, "new-refresh");
}

#[test]
fn refresh_response_names_what_it_lacks() {
    let no_access = json(r#"{"id_token":"i"}"#);
    let no_id = json(r#"{"access_token":"a"}"#);
    assert_eq!(
        parse_refresh_response(&no_access, "r").err(),
        Some("refresh response missing access_token")
    );
    assert_eq!(
        parse_refresh_response(&no_id, "r").err(),
        Some("refresh response missing id_token")
    );
}

#[test]
fn exchange_response_names_what_it_lacks() {
    let full = json(r#"{"access_token":"a","refresh_token":"r","id_token":"i"}"#);
    let tokens = parse_exchange_response(&full).ok().expect("tokens");
    assert_eq!(tokens.access_token, "a");
    assert_eq!(tokens.refresh_token, "r");
    assert_eq!(tokens.id_token, "i");
    assert_eq!(
        parse_exchange_response(&json("{}")).err(),
        Some("token-exchange response missing access_token")
    );
    assert_eq!(
        parse_exchange_response(&json(r#"{"access_token":"a"}"#)).err(),
        Some("token-exchange response missing refresh_token")
    );
    assert_eq!(
        parse_exchange_response(&json(r#"{"access_token":"a","refresh_token":"r"}"#)).err(),
        Some("token-exchange response missing id_token")
    );
}

#[test]
fn account_id_is_read_from_the_claims() {
    let jwt = make_jwt(r#"{"https://api.openai.com/auth":{"chatgpt_account_id":"acct-1"}}"#);
    assert_eq!(extract_account_id(&jwt), Some("acct-1".to_string()));
    assert_eq!(extract_account_id(&make_jwt("{}")), None);
    assert!(account_of_claims(None).is_none());
    let claims = parse_jwt_claims(&make_jwt(r#"{"exp":7}"#)).expect("claims");
    assert_eq!(to_value(&claims), value(r#"{"exp":7}"#));
}

#[test]
fn token_expires_a_minute_early() {
    assert!(is_expired_at(None, 0));
    assert!(!is_expired_at(Some(1000), 939));
    assert!(is_expired_at(Some(1000), 940));
    assert!(!is_expired_at(Some(i64::MAX), 0));
    assert!(is_expired_at(Some(i64::MIN), i64::MIN));
    assert!(is_expired(None));
    assert!(is_expired(Some(60)));
    assert!(!is_expired(Some(i64::MAX)));
}

#[test]
fn loaded_token_takes_its_end_from_the_access_token() {
    let stored = TokenData {
        access_token: make_jwt(r#"{"exp":42}"#),
        refresh_token: "r".to_string(),
        id_token: "i".to_string(),
        expires_at: None,
        account_id: None,
    };
    assert_eq!(loaded_token(stored).expires_at, Some(42));
    let known = TokenData {
        access_token: make_jwt(r#"{"exp":42}"#),
        refresh_token: "r".to_string(),
        id_token: "i".to_string(),
        expires_at: Some(7),
        account_id: None,
    };
    assert_eq!(loaded_token(known).expires_at, Some(7));
}

#[test]
fn next_token_data_prefers_what_the_tokens_say() {
    let access = make_jwt(r#"{"exp":99}"#);
    let id = make_jwt(r#"{"https://api.openai.com/auth":{"chatgpt_account_id":"from-id"}}"#);
    let next = next_token_data(
        RefreshedTokens {
            access_token: access.clone(),
            refresh_token: "r2".to_string(),
            id_token: id,
        },
        Some("known".to_string()),
    );
    assert_eq!(next.access_token, access);
    assert_eq!(next.refresh_token, "r2");
    assert_eq!(next.expires_at, Some(99));
    assert_eq!(next.account_id.as_deref(), Some("from-id"));
    let silent = next_token_data(
        RefreshedTokens {
            access_token: "a".to_string(),
            refresh_token: "r".to_string(),
            id_token: "i".to_string(),
        },
        Some("known".to_string()),
    );
    assert_eq!(silent.expires_at, None);
    assert_eq!(silent.account_id.as_deref(), Some("known"));
}

#[test]
fn urls_stand_under_the_base() {
    assert_eq!(auth_base(None), "https://auth.openai.com");
    assert_eq!(auth_base(Some("  ")), "https://auth.openai.com");
    assert_eq!(auth_base(Some("http://h")), "http://h");
    assert_eq!(device_code_url("http://h"), "http://h/api/accounts/deviceauth/usercode");
    assert_eq!(device_token_url("http://h"), "http://h/api/accounts/deviceauth/token");
    assert_eq!(oauth_token_url("http://h"), "http://h/oauth/token");
    assert_eq!(redirect_uri("http://h"), "http://h/deviceauth/callback");
    assert_eq!(verify_url("http://h"), "http://h/codex/device");
}

#[test]
fn device_code_is_read_with_its_interval() {
    let code = parse_device_code(&json(
        r#"{"device_auth_id":"device-abc","user_code":"ABCD-1234","interval":1}"#,
    ))
    .ok()
    .expect("code");
    assert_eq!(code.device_auth_id, "device-abc");
    assert_eq!(code.user_code, "ABCD-1234");
    assert_eq!(code.interval, 1);
    assert_eq!(poll_interval(&code), 5);
    let slow = parse_device_code(&json(
        r#"{"device_auth_id":"d","usercode":"X","interval":30}"#,
    ))
    .ok()
    .expect("code");
    assert_eq!(slow.user_code, "X");
    assert_eq!(poll_interval(&slow), 30);
    let odd = parse_device_code(&json(r#"{"device_auth_id":"d","user_code":"X","interval":-3}"#))
        .ok()
        .expect("code");
    assert_eq!(odd.interval, 1);
    let silent = parse_device_code(&json(r#"{"device_auth_id":"d","user_code":"X"}"#))
        .ok()
        .expect("code");
    assert_eq!(silent.interval, 5);
    assert_eq!(
        parse_device_code(&json(r#"{"user_code":"X"}"#)).err(),
        Some("device-code response missing device_auth_id")
    );
    assert_eq!(
        parse_device_code(&json(r#"{"device_auth_id":"d","user_code":7,"usercode":"X"}"#)).err(),
        Some("device-code response missing user_code")
    );
    assert_eq!(
        to_value(&device_poll_body(&slow)),
        value(r#"{"device_auth_id":"d","user_code":"X"}"#)
    );
}

#[test]
fn polling_waits_until_it_is_approved() {
    let granted = json(r#"{"authorization_code":"auth-code-xyz","code_verifier":"verifier"}"#);
    match poll_step(200, Some(&granted), true) {
        PollStep::Approved(code) => {
            assert_eq!(code.authorization_code, "auth-code-xyz");
            assert_eq!(code.code_verifier, "verifier");
        }
        _ => panic!("the sign-in was approved"),
    }
    assert!(matches!(poll_step(403, None, false), PollStep::Wait));
    assert!(matches!(poll_step(404, None, false), PollStep::Wait));
    assert!(matches!(poll_step(403, Some(&granted), false), PollStep::Wait));
    assert!(matches!(poll_step(200, Some(&json("{}")), false), PollStep::Wait));
    assert!(matches!(poll_step(403, None, true), PollStep::TimedOut));
    assert!(matches!(poll_step(500, None, false), PollStep::Failed));
    assert!(matches!(poll_step(201, Some(&granted), true), PollStep::Failed));
}

#[test]
fn request_bodies_name_the_client() {
    assert_eq!(
        to_value(&device_code_body()),
        value(r#"{"client_id":"app_EMoamEEZ73f0CkXaXp7hrann"}"#)
    );
    assert_eq!(
        to_value(&refresh_request_body("tok")),
        value(
            r#"{"client_id":"app_EMoamEEZ73f0CkXaXp7hrann","grant_type":"refresh_token",
                "refresh_token":"tok","scope":"openid profile email"}"#
        )
    );
    let code = AuthCodeResult {
        authorization_code: "c".to_string(),
        code_verifier: "v".to_string(),
    };
    let form = exchange_form(&code, "http://h");
    let pairs: Vec<(&str, &str)> = form.iter().map(|(name, text)| (*name, text.as_str())).collect();
    assert_eq!(
        pairs,
        vec![
            ("grant_type", "authorization_code"),
            ("code", "c"),
            ("redirect_uri", "http://h/deviceauth/callback"),
            ("client_id", "app_EMoamEEZ73f0CkXaXp7hrann"),
            ("code_verifier", "v"),
        ]
    );
}

#[test]
fn failed_sign_ins_reach_the_client_as_unavailable() {
    let missing = missing_auth_message("/app/state/auth/auth.json");
    assert_eq!(
        missing,
        "Cannot read /app/state/auth/auth.json. Run: docker exec -it codex-proxy codex-proxy login"
    );
    let answer = upstream_open_error_response(&missing);
    assert_eq!(answer.status, 503);
    assert_eq!(
        answer.envelope.error.message,
        "Codex upstream authentication is missing. Run: docker exec -it codex-proxy codex-proxy login"
    );
    let refused = refresh_rejected_message("400 Bad Request", "{}");
    assert_eq!(
        refused,
        "refresh_token rejected by upstream: status=400 Bad Request body={}"
    );
    let answer = upstream_open_error_response(&refused);
    assert_eq!(answer.status, 503);
    assert_eq!(
        answer.envelope.error.message,
        "Codex refresh token is no longer valid. Run: docker exec -it codex-proxy codex-proxy login"
    );
}
