use vstd::prelude::*;
use vstd::slice::slice_to_vec;
use vstd::string::*;
use vstd::utf8::*;

use crate::digest::is_hex_digit;
use crate::ids::is_grouped_id;
use crate::state::{opt_origin, Origin, RequestContext};
use crate::text::{concat, lower, lowered, opt_string, opt_text, same_text};

verus! {

/// A header to be sent: its name and its value.
pub struct HeaderLine {
    pub name: String,
    pub value: Vec<u8>,
}

/// A header to be sent, by the text and the bytes involved.
pub type Line = (Seq<char>, Seq<u8>);

/// What a list of headers says.
pub open spec fn lines(headers: Seq<HeaderLine>) -> Seq<Line> {
    headers.map_values(|header: HeaderLine| (header.name@, header.value@))
}

/// What a run of headers sets: for each name, in lower case, the value that was set last.
pub open spec fn header_table(lines: Seq<Line>) -> Map<Seq<char>, Seq<u8>>
    decreases lines.len(),
{
    if lines.len() == 0 {
        Map::empty()
    } else {
        header_table(lines.drop_last()).insert(lower(lines.last().0), lines.last().1)
    }
}

/// Whether no name is set twice.
pub open spec fn set_once(lines: Seq<Line>) -> bool {
    forall|i: int, j: int|
        0 <= i < j < lines.len() ==> lower((#[trigger] lines[i]).0) != lower(
            (#[trigger] lines[j]).0,
        )
}

/// Where no name is set twice, the headers are what is set.
proof fn lemma_header_table(lines: Seq<Line>)
    requires
        set_once(lines),
    ensures
        forall|i: int|
            0 <= i < lines.len() ==> header_table(lines).dom().contains(
                lower((#[trigger] lines[i]).0),
            ) && header_table(lines)[lower(lines[i].0)] == lines[i].1,
        forall|name: Seq<char>| #[trigger]
            header_table(lines).dom().contains(name) ==> exists|i: int|
                0 <= i < lines.len() && lower((#[trigger] lines[i]).0) == name,
    decreases lines.len(),
{
    if lines.len() > 0 {
        let before = lines.drop_last();
        let last = lines.len() - 1;
        lemma_header_table(before);
        assert forall|i: int| 0 <= i < lines.len() implies header_table(lines).dom().contains(
            lower((#[trigger] lines[i]).0),
        ) && header_table(lines)[lower(lines[i].0)] == lines[i].1 by {
            if i < last {
                assert(before[i] == lines[i]);
                assert(lower(lines[i].0) != lower(lines[last].0));
            }
        }
        assert forall|name: Seq<char>| #[trigger]
            header_table(lines).dom().contains(name) implies exists|i: int|
            0 <= i < lines.len() && lower((#[trigger] lines[i]).0) == name by {
            if name == lower(lines[last].0) {
                assert(lower(lines[last].0) == name);
            } else {
                assert(header_table(before).dom().contains(name));
                let i = choose|i: int| 0 <= i < before.len() && lower((#[trigger] before[i]).0)
                    == name;
                assert(lower(lines[i].0) == name);
            }
        }
    }
}

/// A header with a value that may be missing.
pub open spec fn line_if(name: Seq<char>, value: Option<Seq<u8>>) -> Seq<Line> {
    match value {
        Some(value) => seq![(name, value)],
        None => Seq::empty(),
    }
}

/// The bytes of an optional text.
pub open spec fn encoded(text: Option<Seq<char>>) -> Option<Seq<u8>> {
    match text {
        Some(text) => Some(encode_utf8(text)),
        None => None,
    }
}

/// What optional bytes are.
pub open spec fn opt_slice(bytes: Option<&[u8]>) -> Option<Seq<u8>> {
    match bytes {
        Some(bytes) => Some(bytes@),
        None => None,
    }
}

/// The headers that name a request upstream. Where nothing is known of the request, the id that
/// it brings itself names it.
pub open spec fn id_lines(origin: Option<Origin>, incoming_id: Option<Seq<u8>>) -> Seq<Line> {
    match origin {
        Some(origin) => seq![
            ("session_id"@, encode_utf8(origin.request_id)),
            ("x-request-id"@, encode_utf8(origin.request_id)),
        ] + line_if("x-client-request-id"@, encoded(origin.client_request_id)),
        None => line_if("x-request-id"@, incoming_id) + line_if("session_id"@, incoming_id),
    }
}

/// The headers that a request sets upstream beside those of every request, one after the other.
pub open spec fn upstream_lines(
    account: Option<Seq<char>>,
    originator: Seq<char>,
    origin: Option<Origin>,
    incoming_id: Option<Seq<u8>>,
    forwarded: Seq<Line>,
) -> Seq<Line> {
    line_if("ChatGPT-Account-Id"@, encoded(account)) + seq![
        ("originator"@, encode_utf8(originator)),
    ] + id_lines(origin, incoming_id) + forwarded
}

/// Where a header stands, by its name in lower case, or behind all of them where it does not.
fn line_position(headers: &Vec<HeaderLine>, key: &str) -> (at: usize)
    ensures
        at <= headers@.len(),
        at < headers@.len() ==> lower(headers@[at as int].name@) == key@,
        forall|k: int| 0 <= k < at ==> lower((#[trigger] headers@[k]).name@) != key@,
{
    for i in 0..headers.len()
        invariant
            forall|k: int| 0 <= k < i ==> lower((#[trigger] headers@[k]).name@) != key@,
    {
        let name = lowered(headers[i].name.as_str());
        if same_text(name.as_str(), key) {
            return i;
        }
    }
    headers.len()
}

/// Sets a header, in place of one with that name.
fn set_line(headers: &mut Vec<HeaderLine>, name: &str, value: Vec<u8>)
    requires
        set_once(lines(old(headers)@)),
    ensures
        set_once(lines(final(headers)@)),
        header_table(lines(final(headers)@)) == header_table(lines(old(headers)@)).insert(
            lower(name@),
            value@,
        ),
{
    let ghost before = lines(headers@);
    let ghost set = value@;
    let key = lowered(name);
    let i: usize = line_position(headers, key.as_str());
    proof {
        lemma_header_table(before);
    }
    let line = HeaderLine { name: name.to_owned(), value };
    if i < headers.len() {
        headers.set(i, line);
        proof {
            let now = lines(headers@);
            assert(now =~= before.update(i as int, (name@, set)));
            assert(lower(before[i as int].0) == key@);
            assert forall|a: int, b: int| 0 <= a < b < now.len() implies lower(
                (#[trigger] now[a]).0,
            ) != lower((#[trigger] now[b]).0) by {
                assert(lower(before[a].0) != lower(before[b].0));
            }
            lemma_header_table(now);
            assert(header_table(now) =~= header_table(before).insert(key@, set)) by {
                assert forall|other: Seq<char>|
                    header_table(now).dom().contains(other) <==> header_table(before).insert(
                        key@,
                        set,
                    ).dom().contains(other) by {
                    if header_table(now).dom().contains(other) {
                        let k = choose|k: int| 0 <= k < now.len() && lower((#[trigger] now[k]).0)
                            == other;
                        assert(lower(before[k].0) == other);
                    }
                    if header_table(before).dom().contains(other) {
                        let k = choose|k: int| 0 <= k < before.len() && lower(
                            (#[trigger] before[k]).0,
                        ) == other;
                        assert(lower(now[k].0) == other);
                    }
                    if other == key@ {
                        assert(lower(now[i as int].0) == other);
                    }
                }
                assert forall|other: Seq<char>|
                    header_table(now).dom().contains(other) implies header_table(now)[other]
                    == header_table(before).insert(key@, set)[other] by {
                    let k = choose|k: int| 0 <= k < now.len() && lower((#[trigger] now[k]).0)
                        == other;
                    assert(lower(before[k].0) == other);
                }
            }
        }
    } else {
        headers.push(line);
        proof {
            let now = lines(headers@);
            assert(now =~= before.push((name@, set)));
            assert(now.drop_last() =~= before);
            assert forall|k: int| 0 <= k < before.len() implies lower((#[trigger] before[k]).0)
                != key@ by {
                assert(before[k].0 == headers@[k].name@);
            }
        }
    }
}

/// Sets a header to a text, or leaves it where there is none.
fn set_text(headers: &mut Vec<HeaderLine>, name: &str, text: Option<&str>)
    requires
        set_once(lines(old(headers)@)),
    ensures
        set_once(lines(final(headers)@)),
        forall|before: Seq<Line>|
            header_table(before) == header_table(lines(old(headers)@)) ==> header_table(
                lines(final(headers)@),
            ) == #[trigger] header_table(before + line_if(name@, encoded(opt_text(text)))),
{
    if let Some(text) = text {
        set_line(headers, name, slice_to_vec(text.as_bytes()));
    }
    proof {
        lemma_set_if(name@, encoded(opt_text(text)));
    }
}

/// Sets a header to bytes, or leaves it where there are none.
fn set_bytes(headers: &mut Vec<HeaderLine>, name: &str, bytes: Option<&[u8]>)
    requires
        set_once(lines(old(headers)@)),
    ensures
        set_once(lines(final(headers)@)),
        forall|before: Seq<Line>|
            header_table(before) == header_table(lines(old(headers)@)) ==> header_table(
                lines(final(headers)@),
            ) == #[trigger] header_table(before + line_if(name@, opt_slice(bytes))),
{
    if let Some(bytes) = bytes {
        set_line(headers, name, slice_to_vec(bytes));
    }
    proof {
        lemma_set_if(name@, opt_slice(bytes));
    }
}

/// One more header, where there is one, sets one more name.
proof fn lemma_set_if(name: Seq<char>, value: Option<Seq<u8>>)
    ensures
        forall|before: Seq<Line>| #[trigger]
            header_table(before + line_if(name, value)) == (match value {
                Some(value) => header_table(before).insert(lower(name), value),
                None => header_table(before),
            }),
{
    assert forall|before: Seq<Line>| #[trigger]
        header_table(before + line_if(name, value)) == (match value {
            Some(value) => header_table(before).insert(lower(name), value),
            None => header_table(before),
        }) by {
        match value {
            Some(value) => {
                assert((before + line_if(name, Some(value))).drop_last() =~= before);
            },
            None => {
                assert(before + line_if(name, None) =~= before);
            },
        }
    }
}

/// The headers that a request carries upstream beside those of every request: for whom it is,
/// from what program, which request it is, and what is forwarded from the client.
pub fn build_chatgpt_upstream_headers(
    account: Option<&str>,
    originator: &str,
    context: Option<&RequestContext>,
    incoming_id: Option<&[u8]>,
    forwarded: Vec<HeaderLine>,
) -> (headers: Vec<HeaderLine>)
    ensures
        set_once(lines(headers@)),
        header_table(lines(headers@)) == header_table(
            upstream_lines(
                opt_text(account),
                originator@,
                opt_origin(context),
                opt_slice(incoming_id),
                lines(forwarded@),
            ),
        ),
{
    let mut headers: Vec<HeaderLine> = Vec::new();
    let ghost none = Seq::<Line>::empty();
    let ghost first = line_if("ChatGPT-Account-Id"@, encoded(opt_text(account)));
    let ghost second = line_if("originator"@, encoded(Some(originator@)));
    let ghost ids = id_lines(opt_origin(context), opt_slice(incoming_id));
    proof {
        assert(lines(headers@) =~= none);
        assert(none + first =~= first);
    }
    set_text(&mut headers, "ChatGPT-Account-Id", account);
    proof {
        assert(header_table(lines(headers@)) == header_table(none + first));
    }
    set_text(&mut headers, "originator", Some(originator));
    let ghost start = first + second;
    proof {
        assert(header_table(lines(headers@)) == header_table(start));
    }
    match context {
        Some(context) => {
            let id = context.request_id.as_str();
            let ghost session = line_if("session_id"@, encoded(Some(id@)));
            let ghost request = line_if("x-request-id"@, encoded(Some(id@)));
            set_text(&mut headers, "session_id", Some(id));
            proof {
                assert(header_table(lines(headers@)) == header_table(start + session));
            }
            set_text(&mut headers, "x-request-id", Some(id));
            proof {
                assert(header_table(lines(headers@)) == header_table(start + session + request));
            }
            match &context.client_request_id {
                Some(client) => {
                    set_text(&mut headers, "x-client-request-id", Some(client.as_str()));
                },
                None => {
                    set_text(&mut headers, "x-client-request-id", None);
                },
            }
            proof {
                let client = line_if(
                    "x-client-request-id"@,
                    encoded(opt_string(context.client_request_id)),
                );
                assert(header_table(lines(headers@)) == header_table(
                    start + session + request + client,
                ));
                assert(start + session + request + client =~= start + ids);
            }
        },
        None => {
            let ghost request = line_if("x-request-id"@, opt_slice(incoming_id));
            let ghost session = line_if("session_id"@, opt_slice(incoming_id));
            set_bytes(&mut headers, "x-request-id", incoming_id);
            proof {
                assert(header_table(lines(headers@)) == header_table(start + request));
            }
            set_bytes(&mut headers, "session_id", incoming_id);
            proof {
                assert(header_table(lines(headers@)) == header_table(start + request + session));
                assert(start + request + session =~= start + ids);
            }
        },
    }
    let ghost base = start + ids;
    let ghost added = lines(forwarded@);
    proof {
        assert(second =~= seq![("originator"@, encode_utf8(originator@))]);
        assert(base + added.take(0) =~= base);
    }
    for line in it: forwarded
        invariant
            it.seq() == forwarded@,
            added == lines(forwarded@),
            set_once(lines(headers@)),
            header_table(lines(headers@)) == header_table(base + added.take(it.index())),
    {
        proof {
            assert((base + added.take(it.index() + 1)).drop_last() =~= base + added.take(
                it.index(),
            ));
        }
        set_line(&mut headers, line.name.as_str(), line.value);
    }
    proof {
        assert(added.take(added.len() as int) =~= added);
    }
    headers
}

/// Headers that do not set a name leave it as it is.
pub(crate) proof fn lemma_name_untouched(first: Seq<Line>, second: Seq<Line>, name: Seq<char>)
    requires
        forall|i: int| 0 <= i < second.len() ==> lower((#[trigger] second[i]).0) != name,
    ensures
        header_table(first + second).dom().contains(name) == header_table(first).dom().contains(
            name,
        ),
        header_table(first + second)[name] == header_table(first)[name],
    decreases second.len(),
{
    if second.len() == 0 {
        assert(first + second =~= first);
    } else {
        let fewer = second.drop_last();
        assert forall|i: int| 0 <= i < fewer.len() implies lower((#[trigger] fewer[i]).0)
            != name by {
            assert(fewer[i] == second[i]);
        }
        lemma_name_untouched(first, fewer, name);
        assert((first + second).drop_last() =~= first + fewer);
        assert((first + second).last() == second[second.len() - 1]);
    }
}

/// A request is one session upstream, by its own id, which is far shorter than the 64 bytes that
/// the upstream takes. What is forwarded from the client could name another session.
pub proof fn law_request_is_its_own_session(
    account: Option<Seq<char>>,
    originator: Seq<char>,
    origin: Origin,
    incoming_id: Option<Seq<u8>>,
    forwarded: Seq<Line>,
)
    requires
        is_grouped_id(origin.request_id),
        forall|i: int|
            0 <= i < forwarded.len() ==> lower((#[trigger] forwarded[i]).0) != "session_id"@,
    ensures
        ({
            let table = header_table(
                upstream_lines(account, originator, Some(origin), incoming_id, forwarded),
            );
            &&& table.dom().contains("session_id"@)
            &&& table["session_id"@] == encode_utf8(origin.request_id)
            &&& table["session_id"@].len() <= 64
        }),
{
    let id = origin.request_id;
    let key = "session_id"@;
    reveal_strlit("session_id");
    reveal_strlit("x-request-id");
    reveal_strlit("x-client-request-id");
    assert(lower(key) =~= key);
    let start = line_if("ChatGPT-Account-Id"@, encoded(account)) + seq![
        ("originator"@, encode_utf8(originator)),
    ];
    let named = start.push((key, encode_utf8(id)));
    assert(named.drop_last() =~= start);
    let client = line_if("x-client-request-id"@, encoded(origin.client_request_id));
    let others = seq![("x-request-id"@, encode_utf8(id))] + client;
    assert forall|i: int| 0 <= i < others.len() implies lower((#[trigger] others[i]).0) != key by {
        assert(lower(others[i].0).len() == others[i].0.len());
        assert(others[i].0 == "x-request-id"@ || others[i].0 == "x-client-request-id"@);
    }
    lemma_name_untouched(named, others, key);
    lemma_name_untouched(named + others, forwarded, key);
    assert(named + others + forwarded =~= upstream_lines(
        account,
        originator,
        Some(origin),
        incoming_id,
        forwarded,
    ));
    assert(is_ascii_chars(id)) by {
        assert forall|i: int| 0 <= i < id.len() implies '\0' <= #[trigger] id[i] <= '\u{7f}' by {
            assert(id[i] == '-' || is_hex_digit(id[i]));
        }
    }
    is_ascii_chars_encode_utf8(id);
}

/// Whether a header of the upstream goes to the client under its own name.
pub open spec fn is_forwarded(name: Seq<char>) -> bool {
    ||| name == "x-ratelimit-remaining-requests"@
    ||| name == "x-ratelimit-remaining-tokens"@
    ||| name == "x-ratelimit-limit-requests"@
    ||| name == "x-ratelimit-limit-tokens"@
    ||| name == "x-ratelimit-reset-requests"@
    ||| name == "x-ratelimit-reset-tokens"@
    ||| name == "x-request-id"@
}

/// The name under which a header of the upstream goes to the client.
pub open spec fn client_name(name: Seq<char>) -> Seq<char> {
    if is_forwarded(lower(name)) {
        name
    } else {
        "llm_provider-"@ + lower(name)
    }
}

/// The name under which a header of the upstream goes to the client: its own for those that
/// clients know, and one that tells where it comes from for the others.
pub fn success_header_name(name: &str) -> (out: String)
    ensures
        out@ == client_name(name@),
{
    let key = lowered(name);
    let known = same_text(key.as_str(), "x-ratelimit-remaining-requests") || same_text(
        key.as_str(),
        "x-ratelimit-remaining-tokens",
    ) || same_text(key.as_str(), "x-ratelimit-limit-requests") || same_text(
        key.as_str(),
        "x-ratelimit-limit-tokens",
    ) || same_text(key.as_str(), "x-ratelimit-reset-requests") || same_text(
        key.as_str(),
        "x-ratelimit-reset-tokens",
    ) || same_text(key.as_str(), "x-request-id");
    if known {
        name.to_owned()
    } else {
        concat("llm_provider-", key.as_str())
    }
}

/// The headers of the upstream, one after the other, under the names that clients are given.
pub open spec fn client_lines(headers: Seq<Line>) -> Seq<Line> {
    headers.map_values(|line: Line| (client_name(line.0), line.1))
}

/// The headers of the upstream as they go to the client.
pub fn processed_success_headers(headers: &Vec<HeaderLine>) -> (out: Vec<HeaderLine>)
    ensures
        set_once(lines(out@)),
        header_table(lines(out@)) == header_table(client_lines(lines(headers@))),
{
    let ghost all = client_lines(lines(headers@));
    let mut out: Vec<HeaderLine> = Vec::new();
    proof {
        assert(lines(out@) =~= all.take(0));
    }
    for i in 0..headers.len()
        invariant
            all == client_lines(lines(headers@)),
            set_once(lines(out@)),
            header_table(lines(out@)) == header_table(all.take(i as int)),
    {
        proof {
            assert(all.take(i + 1).drop_last() =~= all.take(i as int));
            assert(lines(headers@)[i as int] == (
                headers@[i as int].name@,
                headers@[i as int].value@,
            ));
        }
        let name = success_header_name(headers[i].name.as_str());
        set_line(&mut out, name.as_str(), slice_to_vec(headers[i].value.as_slice()));
    }
    proof {
        assert(all.take(all.len() as int) =~= all);
    }
    out
}

/// What to do once the upstream has answered a request.
#[derive(PartialEq, Eq, Structural)]
pub enum UpstreamStep {
    /// To have the token refreshed and to send the request with the fresh one.
    RefreshAndResend,
    /// To take the answer as it is.
    Take,
}

/// Decides what to do once the upstream has answered a request, by how many times the request was
/// sent and the status of the last answer: a token that is refused at first is refreshed, once.
pub fn upstream_step(sent: u8, status: u16) -> (step: UpstreamStep)
    ensures
        step == (if status == 401 && sent == 1 {
            UpstreamStep::RefreshAndResend
        } else {
            UpstreamStep::Take
        }),
{
    if status == 401 && sent == 1 {
        UpstreamStep::RefreshAndResend
    } else {
        UpstreamStep::Take
    }
}

} // verus!
