use vstd::prelude::*;
use vstd::utf8::*;

use crate::state::Origin;
use crate::text::lower;
use crate::upstream::{
    client_lines, client_name, encoded, header_table, lemma_name_untouched, line_if, upstream_lines,
    Line,
};

verus! {

/// What tells the names of headers apart.
proof fn lemma_header_words()
    ensures
        "chatgpt-account-id"@.len() == 18 && "chatgpt-account-id"@[0] == 'c',
        "ChatGPT-Account-Id"@.len() == 18 && "ChatGPT-Account-Id"@[0] == 'C',
        "originator"@.len() == 10 && "originator"@[0] == 'o',
        "session_id"@.len() == 10 && "session_id"@[0] == 's',
        "x-request-id"@.len() == 12,
        "x-client-request-id"@.len() == 19,
{
    reveal_strlit("chatgpt-account-id");
    reveal_strlit("ChatGPT-Account-Id");
    reveal_strlit("originator");
    reveal_strlit("session_id");
    reveal_strlit("x-request-id");
    reveal_strlit("x-client-request-id");
}

/// Whether no header of a run has a name, in whatever case.
pub open spec fn leaves_out(lines: Seq<Line>, name: Seq<char>) -> bool {
    forall|i: int| 0 <= i < lines.len() ==> lower((#[trigger] lines[i]).0) != name
}

/// What a run of headers sets a name to, where it sets it.
pub open spec fn set_to(lines: Seq<Line>, name: Seq<char>) -> Option<Seq<u8>> {
    if header_table(lines).dom().contains(name) {
        Some(header_table(lines)[name])
    } else {
        None
    }
}

/// Each header counts, and of two with one name the later.
pub proof fn law_later_header_counts(lines: Seq<Line>, name: Seq<char>, value: Seq<u8>)
    ensures
        set_to(lines.push((name, value)), lower(name)) == Some(value),
        forall|other: Seq<char>|
            other != lower(name) ==> #[trigger] set_to(lines.push((name, value)), other) == set_to(
                lines,
                other,
            ),
        forall|other: Seq<char>| set_to(Seq::empty(), other) is None,
{
    assert(lines.push((name, value)).drop_last() =~= lines);
}

proof fn lemma_lower_names()
    ensures
        lower("ChatGPT-Account-Id"@) == "chatgpt-account-id"@,
        lower("originator"@) == "originator"@,
        lower("session_id"@) == "session_id"@,
        lower("x-request-id"@) == "x-request-id"@,
        lower("x-client-request-id"@) == "x-client-request-id"@,
{
    reveal_strlit("ChatGPT-Account-Id");
    reveal_strlit("chatgpt-account-id");
    reveal_strlit("originator");
    reveal_strlit("session_id");
    reveal_strlit("x-request-id");
    reveal_strlit("x-client-request-id");
    assert('C' as u32 + 32 == 'c' as u32);
    assert('G' as u32 + 32 == 'g' as u32);
    assert('P' as u32 + 32 == 'p' as u32);
    assert('T' as u32 + 32 == 't' as u32);
    assert('A' as u32 + 32 == 'a' as u32);
    assert('I' as u32 + 32 == 'i' as u32);
    assert(lower("ChatGPT-Account-Id"@) =~= "chatgpt-account-id"@);
    assert(lower("originator"@) =~= "originator"@);
    assert(lower("session_id"@) =~= "session_id"@);
    assert(lower("x-request-id"@) =~= "x-request-id"@);
    assert(lower("x-client-request-id"@) =~= "x-client-request-id"@);
}

proof fn lemma_set_by(first: Seq<Line>, last: Seq<Line>, name: Seq<char>)
    requires
        leaves_out(last, name),
    ensures
        set_to(first + last, name) == set_to(first, name),
{
    lemma_name_untouched(first, last, name);
}

proof fn lemma_set_if(before: Seq<Line>, name: Seq<char>, value: Option<Seq<u8>>)
    ensures
        value is Some ==> set_to(before + line_if(name, value), lower(name)) == value,
        value is None ==> set_to(before + line_if(name, value), lower(name)) == set_to(
            before,
            lower(name),
        ),
        forall|other: Seq<char>|
            other != lower(name) ==> #[trigger] set_to(before + line_if(name, value), other)
                == set_to(before, other),
{
    match value {
        Some(value) => {
            assert(before + line_if(name, Some(value)) =~= before.push((name, value)));
            law_later_header_counts(before, name, value);
        },
        None => {
            assert(before + line_if(name, value) =~= before);
        },
    }
}

/// A request goes upstream for its account, from its program, and under its own id, which is that
/// of its session too. The id that the client gave it goes along. What is forwarded from the client
/// counts last.
pub proof fn law_request_is_named_upstream(
    account: Option<Seq<char>>,
    originator: Seq<char>,
    origin: Origin,
    incoming_id: Option<Seq<u8>>,
    forwarded: Seq<Line>,
)
    ensures
        ({
            let lines = upstream_lines(account, originator, Some(origin), incoming_id, forwarded);
            &&& leaves_out(forwarded, "chatgpt-account-id"@) ==> set_to(
                lines,
                "chatgpt-account-id"@,
            ) == encoded(account)
            &&& leaves_out(forwarded, "originator"@) ==> set_to(lines, "originator"@) == Some(
                encode_utf8(originator),
            )
            &&& leaves_out(forwarded, "session_id"@) ==> set_to(lines, "session_id"@) == Some(
                encode_utf8(origin.request_id),
            )
            &&& leaves_out(forwarded, "x-request-id"@) ==> set_to(lines, "x-request-id"@) == Some(
                encode_utf8(origin.request_id),
            )
            &&& leaves_out(forwarded, "x-client-request-id"@) ==> set_to(
                lines,
                "x-client-request-id"@,
            ) == encoded(origin.client_request_id)
        }),
{
    lemma_header_words();
    lemma_lower_names();
    let none = Seq::<Line>::empty();
    let id = encode_utf8(origin.request_id);
    let first = line_if("ChatGPT-Account-Id"@, encoded(account));
    assert(none + first =~= first);
    lemma_set_if(none, "ChatGPT-Account-Id"@, encoded(account));
    let second = first.push(("originator"@, encode_utf8(originator)));
    law_later_header_counts(first, "originator"@, encode_utf8(originator));
    let third = second.push(("session_id"@, id));
    law_later_header_counts(second, "session_id"@, id);
    let fourth = third.push(("x-request-id"@, id));
    law_later_header_counts(third, "x-request-id"@, id);
    let client = encoded(origin.client_request_id);
    let fifth = fourth + line_if("x-client-request-id"@, client);
    lemma_set_if(fourth, "x-client-request-id"@, client);
    assert(fifth + forwarded =~= upstream_lines(
        account,
        originator,
        Some(origin),
        incoming_id,
        forwarded,
    ));
    if leaves_out(forwarded, "chatgpt-account-id"@) {
        lemma_set_by(fifth, forwarded, "chatgpt-account-id"@);
    }
    if leaves_out(forwarded, "originator"@) {
        lemma_set_by(fifth, forwarded, "originator"@);
    }
    if leaves_out(forwarded, "session_id"@) {
        lemma_set_by(fifth, forwarded, "session_id"@);
    }
    if leaves_out(forwarded, "x-request-id"@) {
        lemma_set_by(fifth, forwarded, "x-request-id"@);
    }
    if leaves_out(forwarded, "x-client-request-id"@) {
        lemma_set_by(fifth, forwarded, "x-client-request-id"@);
    }
}

/// A request of which nothing is known goes upstream under the id that it brings itself.
pub proof fn law_unknown_request_brings_its_id(
    account: Option<Seq<char>>,
    originator: Seq<char>,
    incoming_id: Option<Seq<u8>>,
    forwarded: Seq<Line>,
)
    ensures
        ({
            let lines = upstream_lines(account, originator, None, incoming_id, forwarded);
            &&& leaves_out(forwarded, "chatgpt-account-id"@) ==> set_to(
                lines,
                "chatgpt-account-id"@,
            ) == encoded(account)
            &&& leaves_out(forwarded, "originator"@) ==> set_to(lines, "originator"@) == Some(
                encode_utf8(originator),
            )
            &&& leaves_out(forwarded, "session_id"@) ==> set_to(lines, "session_id"@)
                == incoming_id
            &&& leaves_out(forwarded, "x-request-id"@) ==> set_to(lines, "x-request-id"@)
                == incoming_id
        }),
{
    lemma_header_words();
    lemma_lower_names();
    let none = Seq::<Line>::empty();
    let first = line_if("ChatGPT-Account-Id"@, encoded(account));
    assert(none + first =~= first);
    lemma_set_if(none, "ChatGPT-Account-Id"@, encoded(account));
    let second = first.push(("originator"@, encode_utf8(originator)));
    law_later_header_counts(first, "originator"@, encode_utf8(originator));
    let third = second + line_if("x-request-id"@, incoming_id);
    lemma_set_if(second, "x-request-id"@, incoming_id);
    let fourth = third + line_if("session_id"@, incoming_id);
    lemma_set_if(third, "session_id"@, incoming_id);
    assert(fourth + forwarded =~= upstream_lines(
        account,
        originator,
        None,
        incoming_id,
        forwarded,
    ));
    if leaves_out(forwarded, "chatgpt-account-id"@) {
        lemma_set_by(fourth, forwarded, "chatgpt-account-id"@);
    }
    if leaves_out(forwarded, "originator"@) {
        lemma_set_by(fourth, forwarded, "originator"@);
    }
    if leaves_out(forwarded, "session_id"@) {
        lemma_set_by(fourth, forwarded, "session_id"@);
    }
    if leaves_out(forwarded, "x-request-id"@) {
        lemma_set_by(fourth, forwarded, "x-request-id"@);
    }
}

/// What is forwarded from the client goes upstream, the last header of a name as it came.
pub proof fn law_client_headers_go_upstream(
    account: Option<Seq<char>>,
    originator: Seq<char>,
    origin: Option<Origin>,
    incoming_id: Option<Seq<u8>>,
    forwarded: Seq<Line>,
    name: Seq<char>,
    value: Seq<u8>,
)
    ensures
        set_to(
            upstream_lines(
                account,
                originator,
                origin,
                incoming_id,
                forwarded.push((name, value)),
            ),
            lower(name),
        ) == Some(value),
{
    let before = upstream_lines(account, originator, origin, incoming_id, forwarded);
    assert(upstream_lines(
        account,
        originator,
        origin,
        incoming_id,
        forwarded.push((name, value)),
    ) =~= before.push((name, value)));
    law_later_header_counts(before, name, value);
}

/// Whether a header of the upstream is one that clients know.
pub open spec fn is_known_header(name: Seq<char>) -> bool {
    ||| name == "x-ratelimit-remaining-requests"@
    ||| name == "x-ratelimit-remaining-tokens"@
    ||| name == "x-ratelimit-limit-requests"@
    ||| name == "x-ratelimit-limit-tokens"@
    ||| name == "x-ratelimit-reset-requests"@
    ||| name == "x-ratelimit-reset-tokens"@
    ||| name == "x-request-id"@
}

/// Each header of the upstream goes to the client with its value, under its own name where
/// clients know that, and else under one that says where it comes from.
pub proof fn law_upstream_headers_go_to_the_client(headers: Seq<Line>, i: int)
    requires
        0 <= i < headers.len(),
    ensures
        client_lines(headers).len() == headers.len(),
        client_lines(headers)[i].1 == headers[i].1,
        client_lines(headers)[i].0 == (if is_known_header(lower(headers[i].0)) {
            headers[i].0
        } else {
            "llm_provider-"@ + lower(headers[i].0)
        }),
        client_name(headers[i].0) == client_lines(headers)[i].0,
{
}

} // verus!
