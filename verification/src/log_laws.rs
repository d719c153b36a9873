use vstd::prelude::*;
use vstd::utf8::*;

use crate::json::{field_of, text_of, Fields, JsonTree};
use crate::logging::{
    client_address, each_role, item_kind, item_kinds, path_kind, payload_summary, preview,
    recorded_headers, request_record, role_of, top_keys, unmatched_record, Header,
};
use crate::order::in_order;
use crate::records::{aggregate_fields, multipart_record, origin_fields, told_usage, AggregateTimes};
use crate::seqs::flat;
use crate::serde_bridge::{number_of_signed, number_of_unsigned, printed};
use crate::state::Origin;
use crate::text::{contains_text, lossy_text, lower, split_on, trim, trim_end_of};
use crate::text_laws::{is_without, law_first_piece_comes_apart, law_split_undoes_join};

verus! {

/// What tells the names in a record apart.
proof fn lemma_record_words()
    ensures
        "ts"@.len() == 2,
        "phase"@.len() == 5,
        "request_id"@.len() == 10 && "request_id"@[0] == 'r' && "request_id"@[1] == 'e',
        "method"@.len() == 6 && "method"@[0] == 'm',
        "path"@.len() == 4 && "path"@[0] == 'p',
        "route_kind"@.len() == 10 && "route_kind"@[0] == 'r' && "route_kind"@[1] == 'o',
        "content_type"@.len() == 12 && "content_type"@[0] == 'c',
        "body_bytes"@.len() == 10 && "body_bytes"@[0] == 'b',
        "top_level_keys"@.len() == 14 && "top_level_keys"@[0] == 't',
        "payload_summary"@.len() == 15,
        "client_ip"@.len() == 9 && "client_ip"@[0] == 'c',
        "client_request_id"@.len() == 17,
        "headers"@.len() == 7,
        "sanitized_top_level_keys"@.len() == 24,
        "text_preview"@.len() == 12 && "text_preview"@[0] == 't',
        "field_names"@.len() == 11 && "field_names"@[0] == 'f',
        "file_hints"@.len() == 10 && "file_hints"@[0] == 'f',
        "messages_len"@.len() == 12 && "messages_len"@[0] == 'm',
        "messages_roles"@.len() == 14 && "messages_roles"@[0] == 'm',
        "input_len"@.len() == 9 && "input_len"@[0] == 'i',
        "input_kinds"@.len() == 11 && "input_kinds"@[0] == 'i',
        "kind"@.len() == 4 && "kind"@[0] == 'k',
        "length"@.len() == 6 && "length"@[0] == 'l',
        "service_tier"@.len() == 12 && "service_tier"@[0] == 's',
        "normalization_ms"@.len() == 16 && "normalization_ms"@[0] == 'n',
        "upstream_open_ms"@.len() == 16 && "upstream_open_ms"@[0] == 'u',
        "first_chunk_ms"@.len() == 14 && "first_chunk_ms"@[0] == 'f' && "first_chunk_ms"@[6] == 'c',
        "first_event_ms"@.len() == 14 && "first_event_ms"@[0] == 'f' && "first_event_ms"@[6] == 'e',
        "end_to_end_ms"@.len() == 13,
        "chunk_count"@.len() == 11 && "chunk_count"@[0] == 'c',
        "event_count"@.len() == 11 && "event_count"@[0] == 'e',
        "bytes_received"@.len() == 14 && "bytes_received"@[0] == 'b',
        "file"@.len() == 4 && "file"@[0] == 'f',
{
    reveal_strlit("ts");
    reveal_strlit("phase");
    reveal_strlit("request_id");
    reveal_strlit("method");
    reveal_strlit("path");
    reveal_strlit("route_kind");
    reveal_strlit("content_type");
    reveal_strlit("body_bytes");
    reveal_strlit("top_level_keys");
    reveal_strlit("payload_summary");
    reveal_strlit("client_ip");
    reveal_strlit("client_request_id");
    reveal_strlit("headers");
    reveal_strlit("sanitized_top_level_keys");
    reveal_strlit("text_preview");
    reveal_strlit("field_names");
    reveal_strlit("file_hints");
    reveal_strlit("messages_len");
    reveal_strlit("messages_roles");
    reveal_strlit("input_len");
    reveal_strlit("input_kinds");
    reveal_strlit("kind");
    reveal_strlit("length");
    reveal_strlit("service_tier");
    reveal_strlit("normalization_ms");
    reveal_strlit("upstream_open_ms");
    reveal_strlit("first_chunk_ms");
    reveal_strlit("first_event_ms");
    reveal_strlit("end_to_end_ms");
    reveal_strlit("chunk_count");
    reveal_strlit("event_count");
    reveal_strlit("bytes_received");
    reveal_strlit("file");
}

/// Whether the value of a header is a secret.
pub open spec fn is_secret_name(name: Seq<char>) -> bool {
    ||| name == "authorization"@
    ||| name == "proxy-authorization"@
    ||| name == "cookie"@
    ||| name == "set-cookie"@
    ||| name == "x-api-key"@
}

/// What is written down under a name, where anything is.
pub open spec fn written(headers: Seq<Header>, name: Seq<char>) -> Option<JsonTree> {
    field_of(recorded_headers(headers), name)
}

/// Each header is written down under its name, as it came unless it is a secret, and of two with
/// one name the later.
pub proof fn law_headers_are_written_down(headers: Seq<Header>, header: Header)
    ensures
        written(headers.push(header), lower(header.name@)) == Some(
            JsonTree::Text(
                if is_secret_name(lower(header.name@)) {
                    "<redacted>"@
                } else if header.value is Some {
                    header.value->0@
                } else {
                    "<binary>"@
                },
            ),
        ),
        forall|other: Seq<char>|
            other != lower(header.name@) ==> #[trigger] written(headers.push(header), other)
                == written(headers, other),
        forall|other: Seq<char>| written(Seq::empty(), other) is None,
{
    assert(headers.push(header).drop_last() =~= headers);
}

/// What is written down does not depend on the value of a secret.
pub proof fn law_secrets_do_not_matter(
    headers: Seq<Header>,
    name: String,
    first: Option<String>,
    second: Option<String>,
)
    requires
        is_secret_name(lower(name@)),
    ensures
        recorded_headers(headers.push(Header { name, value: first })) == recorded_headers(
            headers.push(Header { name, value: second }),
        ),
{
    let one = headers.push(Header { name, value: first });
    let other = headers.push(Header { name, value: second });
    assert(one.drop_last() =~= headers);
    assert(other.drop_last() =~= headers);
}

/// The address of a client is the first that it was forwarded for, where there is one, and else
/// the one that it connected from.
pub proof fn law_client_address_is_the_first(
    first: Seq<char>,
    rest: Seq<char>,
    connecting: Option<Seq<char>>,
)
    requires
        is_without(first, ','),
    ensures
        trim(first).len() > 0 ==> client_address(Some(first), connecting) == Some(trim(first))
            && client_address(Some(first.push(',') + rest), connecting) == Some(trim(first)),
        trim(first).len() == 0 ==> client_address(Some(first), connecting) == client_address(
            None,
            connecting,
        ) && client_address(Some(first.push(',') + rest), connecting) == client_address(
            None,
            connecting,
        ),
        client_address(None, connecting) == (if connecting is Some && trim(
            connecting->0,
        ).len() > 0 {
            Some(trim(connecting->0))
        } else {
            None
        }),
{
    law_first_piece_comes_apart(first, rest, ',');
    law_split_undoes_join(seq![first], ',');
    assert(split_on(first.push(',') + rest, ',')[0] == first);
    assert(split_on(first, ',')[0] == first);
}

/// Whether two bodies have one shape: the same keys, and messages and input items of the same
/// number, roles and types.
pub open spec fn are_of_one_shape(first: JsonTree, second: JsonTree) -> bool {
    &&& first is Object && second is Object
    &&& forall|key: Seq<char>| first.field(key) is Some <==> second.field(key) is Some
    &&& lists_are_of_one_shape(first.list_field("messages"@), second.list_field("messages"@))
    &&& lists_are_of_one_shape(first.list_field("input"@), second.list_field("input"@))
}

/// Whether two lists have items of the same number, roles and types.
pub open spec fn lists_are_of_one_shape(
    first: Option<Seq<JsonTree>>,
    second: Option<Seq<JsonTree>>,
) -> bool {
    &&& first is Some <==> second is Some
    &&& first is Some ==> first->0.len() == second->0.len() && forall|i: int|
        0 <= i < first->0.len() ==> (#[trigger] first->0[i]).text_field("role"@)
            == second->0[i].text_field("role"@) && first->0[i].text_field("type"@)
            == second->0[i].text_field("type"@)
}

proof fn lemma_same_roles(first: Seq<JsonTree>, second: Seq<JsonTree>)
    requires
        lists_are_of_one_shape(Some(first), Some(second)),
    ensures
        flat(first, each_role()) == flat(second, each_role()),
        item_kinds(first) == item_kinds(second),
    decreases first.len(),
{
    let give = each_role();
    if first.len() > 0 {
        let a = first.drop_last();
        let b = second.drop_last();
        assert forall|i: int| 0 <= i < a.len() implies (#[trigger] a[i]).text_field("role"@)
            == b[i].text_field("role"@) && a[i].text_field("type"@) == b[i].text_field(
            "type"@,
        ) by {
            assert(a[i] == first[i]);
            assert(b[i] == second[i]);
        }
        assert(lists_are_of_one_shape(Some(a), Some(b)));
        lemma_same_roles(a, b);
        let n = first.len() - 1;
        assert(first[n].text_field("role"@) == second[n].text_field("role"@));
        assert(give(first.last()) == role_of(first.last()));
        assert(give(second.last()) == role_of(second.last()));
    }
    assert forall|i: int| 0 <= i < first.len() implies item_kind(#[trigger] first[i]) == item_kind(
        second[i],
    ) by {}
    assert(item_kinds(first) =~= item_kinds(second)) by {
        let a = item_kinds(first);
        let b = item_kinds(second);
        assert(a.len() == b.len());
        assert forall|i: int| 0 <= i < a.len() implies a[i] == b[i] by {
            assert(a[i] == item_kind(first[i]));
            assert(b[i] == item_kind(second[i]));
        }
    }
}

/// The log says nothing of what a body holds but its shape: bodies of one shape are told alike.
pub proof fn law_log_tells_the_shape_alone(first: JsonTree, second: JsonTree)
    requires
        are_of_one_shape(first, second),
    ensures
        payload_summary(first) == payload_summary(second),
        top_keys(first) == top_keys(second),
{
    assert(first->Object_0.dom() =~= second->Object_0.dom()) by {
        assert forall|key: Seq<char>|
            first->Object_0.dom().contains(key) <==> second->Object_0.dom().contains(key) by {
            assert(first.field(key) is Some <==> second.field(key) is Some);
        }
    }
    if first.list_field("messages"@) is Some {
        lemma_same_roles(first.list_field("messages"@)->0, second.list_field("messages"@)->0);
    }
    if first.list_field("input"@) is Some {
        lemma_same_roles(first.list_field("input"@)->0, second.list_field("input"@)->0);
    }
}

/// The roles of messages, in order, of those that have one.
pub open spec fn roles_of(messages: Seq<JsonTree>) -> Seq<Seq<char>>
    decreases messages.len(),
{
    if messages.len() == 0 {
        Seq::empty()
    } else {
        let before = roles_of(messages.drop_last());
        match messages.last().text_field("role"@) {
            Some(role) => before.push(role),
            None => before,
        }
    }
}

proof fn lemma_roles_of(messages: Seq<JsonTree>)
    ensures
        flat(messages, each_role()) == roles_of(messages),
    decreases messages.len(),
{
    if messages.len() > 0 {
        lemma_roles_of(messages.drop_last());
        assert(each_role()(messages.last()) == role_of(
            messages.last(),
        ));
        assert(flat(messages, each_role()) =~= roles_of(messages));
    }
}

/// Of a body that is no object, the log tells what it is.
pub proof fn law_log_tells_the_kind(items: Seq<JsonTree>, text: Seq<char>, value: bool)
    ensures
        payload_summary(JsonTree::Null).text_field("kind"@) == Some("null"@),
        payload_summary(JsonTree::Text(text)).text_field("kind"@) == Some("string"@),
        payload_summary(JsonTree::Bool(value)).text_field("kind"@) == Some("boolean"@),
        payload_summary(JsonTree::List(items)).text_field("kind"@) == Some("array"@),
        payload_summary(JsonTree::List(items)).field("length"@) == Some(
            JsonTree::Number(number_of_unsigned(items.len() as u64)),
        ),
{
    lemma_record_words();
}

/// The log tells how many messages and input items there are, of what type or role each of the
/// first items is, and the keys of a body.
pub proof fn law_log_tells_the_shape(body: JsonTree, i: int)
    requires
        body is Object,
    ensures
        ({
            let told = payload_summary(body);
            let messages = body.list_field("messages"@);
            let items = body.list_field("input"@);
            &&& told.field("messages_len"@) == (if messages is Some {
                Some(JsonTree::Number(number_of_unsigned(messages->0.len() as u64)))
            } else {
                None
            })
            &&& told.field("input_len"@) == (if items is Some {
                Some(JsonTree::Number(number_of_unsigned(items->0.len() as u64)))
            } else {
                None
            })
            &&& items is Some && 0 <= i < items->0.len() && i < 32 ==> {
                let kinds = told.list_field("input_kinds"@);
                let kind = items->0[i].text_field("type"@);
                let role = items->0[i].text_field("role"@);
                &&& kinds is Some && i < kinds->0.len() && kinds->0.len() <= 32
                &&& kind is Some ==> kinds->0[i] == JsonTree::Text("type:"@ + kind->0)
                &&& kind is None && role is Some ==> kinds->0[i] == JsonTree::Text(
                    "role:"@ + role->0,
                )
                &&& kind is None && role is None ==> kinds->0[i] == JsonTree::Text("item"@)
            }
            &&& told.list_field("top_level_keys"@) is Some
            &&& told.list_field("top_level_keys"@)->0.len() == in_order(
                body->Object_0.dom(),
            ).len()
            &&& 0 <= i < in_order(body->Object_0.dom()).len() ==> told.list_field(
                "top_level_keys"@,
            )->0[i] == JsonTree::Text(in_order(body->Object_0.dom())[i])
            &&& messages is Some ==> told.list_field("messages_roles"@) is Some && told.list_field(
                "messages_roles"@,
            )->0.len() == roles_of(messages->0).len()
            &&& messages is Some && 0 <= i < roles_of(messages->0).len() ==> told.list_field(
                "messages_roles"@,
            )->0[i] == JsonTree::Text(roles_of(messages->0)[i])
        }),
{
    lemma_record_words();
    if body.list_field("messages"@) is Some {
        lemma_roles_of(body.list_field("messages"@)->0);
    }
    if body.list_field("input"@) is Some {
        let items = body.list_field("input"@)->0;
        if 0 <= i < items.len() && i < 32 {
            assert(item_kinds(items)[i] == item_kind(items[i]));
        }
    }
}

/// What is known of a request before its body is read, where anything is.
pub open spec fn or_null(text: Option<Seq<char>>) -> JsonTree {
    if text is Some {
        JsonTree::Text(text->0)
    } else {
        JsonTree::Null
    }
}

/// The record of a request has all that is known of the request, what its body is like, and what
/// is written down of its headers.
pub proof fn law_request_record_is_whole(
    time: i64,
    id: Seq<char>,
    origin: Option<Origin>,
    headers: Option<JsonTree>,
    phase: Seq<char>,
    body: JsonTree,
    sanitized: Option<JsonTree>,
)
    ensures
        ({
            let record = request_record(time, id, origin, headers, phase, body, sanitized);
            &&& record.field("ts"@) == Some(JsonTree::Number(number_of_signed(time)))
            &&& record.text_field("phase"@) == Some(phase)
            &&& record.text_field("request_id"@) == Some(id)
            &&& origin is Some ==> record.text_field("method"@) == Some(origin->0.method)
                && record.text_field("path"@) == Some(origin->0.path) && record.text_field(
                "route_kind"@,
            ) == Some(origin->0.route_kind) && record.field("client_ip"@) == Some(
                or_null(origin->0.client_ip),
            ) && record.field("client_request_id"@) == Some(or_null(origin->0.client_request_id))
            &&& origin is None ==> record.text_field("method"@) == Some("POST"@)
                && record.text_field("path"@) == Some(""@) && record.text_field("route_kind"@)
                == Some("other"@)
            &&& record.text_field("content_type"@) == Some(
                if origin is Some && origin->0.content_type is Some {
                    origin->0.content_type->0
                } else {
                    "application/json"@
                },
            )
            &&& record.field("body_bytes"@) == Some(
                JsonTree::Number(number_of_unsigned(encode_utf8(printed(body)).len() as u64)),
            )
            &&& record.field("payload_summary"@) == Some(payload_summary(body))
            &&& record.field("headers"@) == (if headers is Some {
                headers
            } else {
                Some(JsonTree::Null)
            })
            &&& sanitized is None ==> record.field("sanitized_top_level_keys"@) == Some(
                JsonTree::Null,
            )
        }),
{
    lemma_record_words();
}

/// The record of a request for a route that there is not has what the request says, the shape of
/// its body or else the start of its text, and what is written down of its headers.
pub proof fn law_unmatched_record_is_whole(
    time: i64,
    id: Seq<char>,
    method: Seq<char>,
    path: Seq<char>,
    content_type: Option<Seq<char>>,
    origin: Option<Origin>,
    headers: Seq<Header>,
    body: Seq<u8>,
    parsed: Option<JsonTree>,
)
    ensures
        ({
            let record = unmatched_record(
                time,
                id,
                method,
                path,
                content_type,
                origin,
                headers,
                body,
                parsed,
            );
            &&& record.field("ts"@) == Some(JsonTree::Number(number_of_signed(time)))
            &&& record.text_field("phase"@) == Some("unmatched_request"@)
            &&& record.text_field("request_id"@) == Some(id)
            &&& record.text_field("method"@) == Some(method)
            &&& record.text_field("path"@) == Some(path)
            &&& record.field("content_type"@) == Some(or_null(content_type))
            &&& record.field("body_bytes"@) == Some(
                JsonTree::Number(number_of_unsigned(body.len() as u64)),
            )
            &&& record.field("headers"@) == Some(JsonTree::Object(recorded_headers(headers)))
            &&& parsed is Some ==> record.field("payload_summary"@) == Some(
                payload_summary(parsed->0),
            ) && record.field("text_preview"@) == Some(JsonTree::Null)
            &&& parsed is None && lossy_text(body).len() > 0 ==> record.text_field("text_preview"@)
                == Some(preview(lossy_text(body)))
        }),
{
    lemma_record_words();
}

/// A preview is the start of a text, of 512 characters at most, and the whole where it has no
/// more.
pub proof fn law_preview_is_the_start(text: Seq<char>)
    ensures
        preview(text).len() <= 512,
        preview(text) == text.take(preview(text).len() as int),
        text.len() <= 512 ==> preview(text) == text,
        text.len() > 512 ==> preview(text).len() == 512,
{
    assert(text.take(text.len() as int) =~= text);
}

/// The kind of a route is told by its path, with or without the version of the API and with or
/// without slashes behind it.
pub proof fn law_routes_are_told_apart(slashes: nat)
    ensures
        path_kind("/v1/chat/completions"@ + slashes_of(slashes)) == "chatCompletions"@,
        path_kind("/chat/completions"@ + slashes_of(slashes)) == "chatCompletions"@,
        path_kind("/v1/responses"@ + slashes_of(slashes)) == "responsesApi"@,
        path_kind("/responses"@ + slashes_of(slashes)) == "responsesApi"@,
        path_kind("/v1/responses/ws"@ + slashes_of(slashes)) == "responsesWebSocket"@,
        path_kind("/responses/ws"@ + slashes_of(slashes)) == "responsesWebSocket"@,
        path_kind("/v1/models"@ + slashes_of(slashes)) == "models"@,
        path_kind("/models"@ + slashes_of(slashes)) == "models"@,
        path_kind("/v1/files"@ + slashes_of(slashes)) == "files"@,
        path_kind("/files"@ + slashes_of(slashes)) == "files"@,
{
    lemma_path_words();
    reveal_strlit("/v1/chat/completions");
    reveal_strlit("/chat/completions");
    reveal_strlit("/v1/responses");
    reveal_strlit("/responses");
    reveal_strlit("/v1/responses/ws");
    reveal_strlit("/responses/ws");
    reveal_strlit("/v1/models");
    reveal_strlit("/models");
    reveal_strlit("/v1/files");
    reveal_strlit("/files");
    lemma_slashes("/v1/chat/completions"@, slashes);
    lemma_slashes("/chat/completions"@, slashes);
    lemma_slashes("/v1/responses"@, slashes);
    lemma_slashes("/responses"@, slashes);
    lemma_slashes("/v1/responses/ws"@, slashes);
    lemma_slashes("/responses/ws"@, slashes);
    lemma_slashes("/v1/models"@, slashes);
    lemma_slashes("/models"@, slashes);
    lemma_slashes("/v1/files"@, slashes);
    lemma_slashes("/files"@, slashes);
}

/// What tells the paths of routes apart.
proof fn lemma_path_words()
    ensures
        "/v1/chat/completions"@.len() == 20,
        "/chat/completions"@.len() == 17,
        "/v1/responses"@.len() == 13 && "/v1/responses"@[1] == 'v',
        "/responses"@.len() == 10 && "/responses"@[1] == 'r',
        "/v1/responses/ws"@.len() == 16,
        "/responses/ws"@.len() == 13 && "/responses/ws"@[1] == 'r',
        "/v1/models"@.len() == 10 && "/v1/models"@[1] == 'v',
        "/models"@.len() == 7,
        "/v1/files"@.len() == 9,
        "/files"@.len() == 6,
{
    reveal_strlit("/v1/chat/completions");
    reveal_strlit("/chat/completions");
    reveal_strlit("/v1/responses");
    reveal_strlit("/responses");
    reveal_strlit("/v1/responses/ws");
    reveal_strlit("/responses/ws");
    reveal_strlit("/v1/models");
    reveal_strlit("/models");
    reveal_strlit("/v1/files");
    reveal_strlit("/files");
}

/// A route that is none of these is told as one for uploads where its path speaks of such, and else
/// as another.
pub proof fn law_other_routes_are_told(path: Seq<char>)
    requires
        ({
            let route = trim_end_of(path, '/');
            &&& route != "/v1/chat/completions"@ && route != "/chat/completions"@
            &&& route != "/v1/responses"@ && route != "/responses"@
            &&& route != "/v1/responses/ws"@ && route != "/responses/ws"@
            &&& route != "/v1/models"@ && route != "/models"@
            &&& route != "/v1/files"@ && route != "/files"@
        }),
    ensures
        path_kind(path) == (if contains_text(path, "upload"@) || contains_text(path, "/files"@)
            || contains_text(path, "attachment"@) {
            "unknownUpload"@
        } else {
            "other"@
        }),
{
}

/// So many slashes.
pub open spec fn slashes_of(count: nat) -> Seq<char> {
    Seq::new(count, |i: int| '/')
}

proof fn lemma_slashes(path: Seq<char>, count: nat)
    requires
        path.len() > 0,
        path.last() != '/',
    ensures
        trim_end_of(path + slashes_of(count), '/') == path,
    decreases count,
{
    if count == 0 {
        assert(path + slashes_of(count) =~= path);
    } else {
        let fewer = (count - 1) as nat;
        lemma_slashes(path, fewer);
        assert((path + slashes_of(count)).drop_last() =~= path + slashes_of(fewer));
        assert((path + slashes_of(count)).last() == '/');
    }
}

/// The log says of a record when it was made, for what, and for which request.
pub proof fn law_record_names_its_request(time: i64, phase: Seq<char>, origin: Option<Origin>)
    ensures
        ({
            let fields = origin_fields(time, phase, origin);
            &&& field_of(fields, "ts"@) == Some(JsonTree::Number(number_of_signed(time)))
            &&& text_of(fields, "phase"@) == Some(phase)
            &&& origin is Some ==> text_of(fields, "request_id"@) == Some(origin->0.request_id)
                && text_of(fields, "path"@) == Some(origin->0.path) && text_of(
                fields,
                "route_kind"@,
            ) == Some(origin->0.route_kind)
            &&& origin is None ==> field_of(fields, "request_id"@) == Some(JsonTree::Null)
                && field_of(fields, "path"@) == Some(JsonTree::Null) && field_of(
                fields,
                "route_kind"@,
            ) == Some(JsonTree::Null)
        }),
{
    lemma_record_words();
}

/// The log says of a response how long it took and how much of it came, and leaves the rest of the
/// record as it is.
pub proof fn law_response_record_is_whole(
    base: Fields,
    payload: JsonTree,
    times: AggregateTimes,
    counts: (u64, u64, u64),
)
    ensures
        ({
            let fields = aggregate_fields(base, payload, times, counts);
            &&& field_of(fields, "service_tier"@) == Some(
                or_null(payload.text_field("service_tier"@)),
            )
            &&& field_of(fields, "normalization_ms"@) == Some(times.normalization_ms@)
            &&& field_of(fields, "upstream_open_ms"@) == Some(times.upstream_open_ms@)
            &&& field_of(fields, "first_chunk_ms"@) == Some(times.first_chunk_ms@)
            &&& field_of(fields, "first_event_ms"@) == Some(times.first_event_ms@)
            &&& field_of(fields, "end_to_end_ms"@) == Some(times.end_to_end_ms@)
            &&& field_of(fields, "chunk_count"@) == Some(
                JsonTree::Number(number_of_unsigned(counts.0)),
            )
            &&& field_of(fields, "event_count"@) == Some(
                JsonTree::Number(number_of_unsigned(counts.1)),
            )
            &&& field_of(fields, "bytes_received"@) == Some(
                JsonTree::Number(number_of_unsigned(counts.2)),
            )
            &&& field_of(fields, "ts"@) == field_of(base, "ts"@)
            &&& field_of(fields, "phase"@) == field_of(base, "phase"@)
            &&& field_of(fields, "request_id"@) == field_of(base, "request_id"@)
        }),
{
    lemma_record_words();
}

/// The usage that the log tells is the one that the response tells, and nothing where it tells
/// none.
pub proof fn law_usage_is_told(response: JsonTree, key: Seq<char>)
    ensures
        ({
            let count = match response.field("usage"@) {
                Some(usage) => usage.integer_field(key),
                None => None,
            };
            told_usage(response, key) == (if count is Some {
                JsonTree::Number(number_of_signed(count->0))
            } else {
                JsonTree::Null
            })
        }),
{
}

/// The record of an upload has the names of its fields and a hint at the file, and nothing of what
/// they hold.
pub proof fn law_upload_record_is_whole(
    time: i64,
    id: Seq<char>,
    origin: Option<Origin>,
    names: Seq<Seq<char>>,
    hint: Option<Seq<char>>,
)
    ensures
        ({
            let record = multipart_record(time, id, origin, names, hint);
            let told = record.list_field("field_names"@);
            &&& record.field("ts"@) == Some(JsonTree::Number(number_of_signed(time)))
            &&& record.text_field("phase"@) == Some("client_multipart"@)
            &&& record.text_field("request_id"@) == Some(id)
            &&& told is Some && told->0.len() == names.len()
            &&& forall|i: int|
                0 <= i < names.len() ==> (#[trigger] record.list_field("field_names"@)->0[i])
                    == JsonTree::Text(names[i])
            &&& record.field("file_hints"@) is Some
            &&& record.field("file_hints"@)->0.text_field("file"@) == hint
            &&& origin is Some ==> record.text_field("method"@) == Some(origin->0.method)
                && record.text_field("path"@) == Some(origin->0.path) && record.text_field(
                "route_kind"@,
            ) == Some(origin->0.route_kind)
            &&& origin is None ==> record.text_field("method"@) == Some("POST"@)
                && record.text_field("path"@) == Some("/v1/files"@) && record.text_field(
                "route_kind"@,
            ) == Some("files"@)
        }),
{
    lemma_record_words();
}

} // verus!
