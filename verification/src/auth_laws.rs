use vstd::prelude::*;

use crate::base64_bridge::base64_bytes;
use crate::codex_auth::{
    claimed_account, claimed_end, device_code, exchanged, granted, missing_auth, next_account,
    refreshed, rejected_refresh, still_pending, token_claims, token_expired, CLIENT_ID,
    EXPIRY_SKEW_S, POLL_MIN_INTERVAL_S, POLL_TIMEOUT_S, SCOPE,
};
use crate::json::JsonTree;
use crate::middleware::{bearer_token, may_pass};
use crate::serde_bridge::parsed_bytes;
use crate::text::{contains_text, first_position, lower, split_on, stands_at, trim, trim_start};
use crate::text_laws::{
    is_without, law_end_is_trimmed, law_first_piece_comes_apart, law_first_position,
    law_start_is_trimmed, law_trimmed_text_stays,
};

verus! {

/// A header of the bearer scheme, in whatever case, brings the token behind the scheme. Any other
/// scheme brings none, and neither does an empty token.
pub proof fn law_bearer_brings_its_token(scheme: Seq<char>, rest: Seq<char>)
    requires
        is_without(scheme, ' '),
    ensures
        bearer_token(scheme.push(' ') + rest) == (if lower(trim(scheme)) == "bearer"@ && trim(
            rest,
        ).len() > 0 {
            Some(trim(rest))
        } else {
            None
        }),
{
    let value = scheme.push(' ') + rest;
    law_first_position(scheme, ' ', rest);
    assert(value[scheme.len() as int] == ' ');
    assert(value.contains(' '));
    assert(value.take(scheme.len() as int) =~= scheme);
    assert(value.skip(scheme.len() + 1int) =~= rest);
}

/// A header of one word brings no token.
pub proof fn law_one_word_brings_no_token(value: Seq<char>)
    requires
        is_without(value, ' '),
    ensures
        bearer_token(value) is None,
{
    if value.contains(' ') {
        let i = choose|i: int| 0 <= i < value.len() && value[i] == ' ';
        assert(value[i] != ' ');
    }
}

/// With a key set, a request passes with that key, and on no other route than the one for health
/// without it: the key itself stands in its header.
pub proof fn law_key_opens(path: Seq<char>, key: Seq<char>, authorization: Option<Seq<char>>)
    requires
        key.len() > 0,
        trim(key) == key,
    ensures
        may_pass(path, Some(key), Some("Bearer "@ + key)),
        may_pass(path, None, authorization),
        may_pass("/healthz"@, Some(key), authorization),
        path != "/healthz"@ && may_pass(path, Some(key), authorization) ==> authorization is Some
            && contains_text(authorization->0, key),
        path != "/healthz"@ ==> !may_pass(path, Some(key), None),
{
    let scheme = "Bearer"@;
    reveal_strlit("Bearer ");
    reveal_strlit("Bearer");
    reveal_strlit("bearer");
    assert("Bearer "@ =~= scheme.push(' '));
    law_bearer_brings_its_token(scheme, key);
    law_trimmed_text_stays(scheme);
    assert('B' as u32 + 32 == 'b' as u32);
    assert(lower(scheme) =~= "bearer"@);
    if path != "/healthz"@ && may_pass(path, Some(key), authorization) {
        let value = authorization->0;
        let at = first_position(value, ' ');
        lemma_position(value, ' ');
        let rest = value.skip(at + 1);
        law_start_is_trimmed(rest);
        law_end_is_trimmed(trim_start(rest));
        let from = at + 1 + (rest.len() - trim_start(rest).len());
        assert(value.subrange(from, from + key.len()) =~= key);
        assert(stands_at(value, key, from));
    }
}

proof fn lemma_position(text: Seq<char>, c: char)
    requires
        text.contains(c),
    ensures
        0 <= first_position(text, c) < text.len(),
    decreases text.len(),
{
    let at = choose|i: int| 0 <= i < text.len() && text[i] == c;
    if text[0] != c {
        let rest = text.drop_first();
        assert(rest[at - 1] == c);
        lemma_position(rest, c);
    }
}

/// A token counts as expired a minute before its end and from then on, and where its end is not
/// known.
pub proof fn law_token_expires(end: i64, now: i64)
    ensures
        token_expired(Some(end), now) <==> now + 60 >= end,
        token_expired(None, now),
{
}

/// The claims of a token are what its second part holds.
pub proof fn law_claims_are_the_second_part(first: Seq<char>, second: Seq<char>, rest: Seq<char>)
    requires
        is_without(first, '.'),
        is_without(second, '.'),
    ensures
        token_claims(first.push('.') + (second.push('.') + rest)) == (match base64_bytes(second) {
            Some(bytes) => parsed_bytes(bytes),
            None => None,
        }),
{
    law_first_piece_comes_apart(first, second.push('.') + rest, '.');
    law_first_piece_comes_apart(second, rest, '.');
    let parts = split_on(first.push('.') + (second.push('.') + rest), '.');
    assert(parts[1] == second);
}

/// A token ends when it says so itself, and is for the account that it names itself.
pub proof fn law_claims_are_read(claims: JsonTree)
    ensures
        claimed_end(Some(claims)) == claims.integer_field("exp"@),
        claimed_account(Some(claims)) == (match claims.field("https://api.openai.com/auth"@) {
            Some(auth) => auth.text_field("chatgpt_account_id"@),
            None => None,
        }),
        claimed_end(None) is None,
        claimed_account(None) is None,
{
}

/// A refresh gives the tokens of its answer. The token for the next refresh is the one that there
/// is where the answer brings none. An answer without the other tokens is refused.
pub proof fn law_refresh_gives_its_tokens(data: JsonTree, old: Seq<char>)
    ensures
        ({
            let access = data.text_field("access_token"@);
            let id = data.text_field("id_token"@);
            let next = data.text_field("refresh_token"@);
            let given = refreshed(data, old);
            &&& given is Ok <==> access is Some && id is Some
            &&& given is Ok ==> {
                &&& Some(given->Ok_0.0) == access
                &&& Some(given->Ok_0.2) == id
                &&& next is Some ==> given->Ok_0.1 == next->0
                &&& next is None ==> given->Ok_0.1 == old
            }
            &&& access is None ==> given->Err_0 == "refresh response missing access_token"@
            &&& access is Some && id is None ==> given->Err_0
                == "refresh response missing id_token"@
        }),
{
}

/// An exchange gives the three tokens of its answer, and an answer without one of them is refused.
pub proof fn law_exchange_gives_its_tokens(data: JsonTree)
    ensures
        ({
            let access = data.text_field("access_token"@);
            let refresh = data.text_field("refresh_token"@);
            let id = data.text_field("id_token"@);
            let given = exchanged(data);
            &&& given is Ok <==> access is Some && refresh is Some && id is Some
            &&& given is Ok ==> given->Ok_0 == (access->0, refresh->0, id->0)
            &&& access is None ==> given->Err_0 == "token-exchange response missing access_token"@
            &&& access is Some && refresh is None ==> given->Err_0
                == "token-exchange response missing refresh_token"@
            &&& access is Some && refresh is Some && id is None ==> given->Err_0
                == "token-exchange response missing id_token"@
        }),
{
}

/// New tokens are for the account that the access token names, or else the id token, or else the
/// one that was known. No account is lost.
pub proof fn law_account_is_kept(
    access: Option<JsonTree>,
    id: Option<JsonTree>,
    known: Option<Seq<char>>,
)
    ensures
        ({
            let account = next_account(access, id, known);
            &&& claimed_account(access) is Some ==> account == claimed_account(access)
            &&& claimed_account(access) is None && claimed_account(id) is Some ==> account
                == claimed_account(id)
            &&& claimed_account(access) is None && claimed_account(id) is None ==> account == known
        }),
{
}

/// A device code is what the answer gives, under either name, with the seconds to wait that it
/// asks for, one at least, or five where it asks for none.
pub proof fn law_device_code_is_read(data: JsonTree)
    ensures
        ({
            let id = data.text_field("device_auth_id"@);
            let code = if data.field("user_code"@) is Some {
                data.text_field("user_code"@)
            } else {
                data.text_field("usercode"@)
            };
            let seconds = data.integer_field("interval"@);
            let read = device_code(data);
            &&& read is Ok <==> id is Some && code is Some
            &&& read is Ok ==> {
                &&& Some(read->Ok_0.0) == id
                &&& Some(read->Ok_0.1) == code
                &&& seconds is None ==> read->Ok_0.2 == 5
                &&& seconds is Some && seconds->0 >= 1 ==> read->Ok_0.2 == seconds->0
                &&& seconds is Some && seconds->0 < 1 ==> read->Ok_0.2 == 1
            }
            &&& id is None ==> read->Err_0 == "device-code response missing device_auth_id"@
            &&& id is Some && code is None ==> read->Err_0
                == "device-code response missing user_code"@
        }),
{
}

/// A sign-in is granted where the answer has both codes, and is waited for under three statuses.
pub proof fn law_sign_in_is_granted(data: JsonTree, status: u16)
    ensures
        ({
            let code = data.text_field("authorization_code"@);
            let verifier = data.text_field("code_verifier"@);
            &&& granted(Some(data)) is Some <==> code is Some && verifier is Some
            &&& granted(Some(data)) is Some ==> granted(Some(data))->0 == (code->0, verifier->0)
        }),
        granted(None) is None,
        still_pending(status) <==> status == 200 || status == 403 || status == 404,
{
}

/// A sign-in is for this proxy, is waited for a quarter of an hour, and is asked for no more often
/// than every five seconds.
pub proof fn law_sign_in_is_waited_for()
    ensures
        CLIENT_ID@ == "app_EMoamEEZ73f0CkXaXp7hrann"@,
        SCOPE@ == "openid profile email"@,
        POLL_TIMEOUT_S == 900,
        POLL_MIN_INTERVAL_S == 5,
        EXPIRY_SKEW_S == 60,
{
}

/// What is said of a failure to sign in names what failed.
pub proof fn law_sign_in_failures_say_why(path: Seq<char>, status: Seq<char>, body: Seq<char>)
    ensures
        contains_text(missing_auth(path), path),
        contains_text(rejected_refresh(status, body), status),
        contains_text(rejected_refresh(status, body), body),
{
    reveal_strlit("Cannot read ");
    reveal_strlit("refresh_token rejected by upstream: status=");
    reveal_strlit(" body=");
    let missing = missing_auth(path);
    assert(missing.subrange(12, 12int + path.len()) =~= path);
    assert(stands_at(missing, path, 12));
    let rejected = rejected_refresh(status, body);
    let start = "refresh_token rejected by upstream: status="@.len() as int;
    assert(rejected.subrange(start, start + status.len()) =~= status);
    assert(stands_at(rejected, status, start));
    let end = rejected.len() - body.len();
    assert(rejected.subrange(end, end + body.len()) =~= body);
    assert(stands_at(rejected, body, end));
}

} // verus!
