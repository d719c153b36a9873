use vstd::prelude::*;
use vstd::string::*;
use vstd::utf8::*;

use crate::errors::{json_error_with_type, ErrorAnswer, ErrorResponse};
use crate::ids::{grouped_id, is_grouped_id};
use crate::json::{
    group_json, list_trees, no_fields, opt_json, opt_tree, parse_json_bytes, print_json, Fields,
    Json, JsonObject, JsonTree,
};
use crate::order::in_order;
use crate::seqs::flat;
use crate::serde_bridge::{number_of_signed, number_of_unsigned, parsed_bytes, printed};
use crate::state::{opt_origin, Origin, RequestContext};
use crate::text::{
    chars_of, concat, contains_text, has_text, lossy_text, lower, lowered, opt_string, opt_text,
    pieces, read_lossy, same_text, split_on, text_of, text_or, texts, trim, trim_end_of, trimmed,
    trimmed_end_of,
};

verus! {

broadcast use group_json;

/// The kind of route that a path names.
pub open spec fn path_kind(path: Seq<char>) -> Seq<char> {
    let route = trim_end_of(path, '/');
    if route == "/v1/chat/completions"@ || route == "/chat/completions"@ {
        "chatCompletions"@
    } else if route == "/v1/responses"@ || route == "/responses"@ {
        "responsesApi"@
    } else if route == "/v1/responses/ws"@ || route == "/responses/ws"@ {
        "responsesWebSocket"@
    } else if route == "/v1/models"@ || route == "/models"@ {
        "models"@
    } else if route == "/v1/files"@ || route == "/files"@ {
        "files"@
    } else if contains_text(path, "upload"@) || contains_text(path, "/files"@) || contains_text(
        path,
        "attachment"@,
    ) {
        "unknownUpload"@
    } else {
        "other"@
    }
}

/// Names the kind of route that a path belongs to.
pub fn classify_pathname(path: &str) -> (kind: &'static str)
    ensures
        kind@ == path_kind(path@),
{
    let normalized = trimmed_end_of(path, '/');
    let route = normalized.as_str();
    if same_text(route, "/v1/chat/completions") || same_text(route, "/chat/completions") {
        "chatCompletions"
    } else if same_text(route, "/v1/responses") || same_text(route, "/responses") {
        "responsesApi"
    } else if same_text(route, "/v1/responses/ws") || same_text(route, "/responses/ws") {
        "responsesWebSocket"
    } else if same_text(route, "/v1/models") || same_text(route, "/models") {
        "models"
    } else if same_text(route, "/v1/files") || same_text(route, "/files") {
        "files"
    } else if has_text(path, "upload") || has_text(path, "/files") || has_text(path, "attachment") {
        "unknownUpload"
    } else {
        "other"
    }
}

/// A header of a request: its name, and its value where that is a text.
pub struct Header {
    pub name: String,
    pub value: Option<String>,
}

/// Whether the value of a header is never written down. The name is in lower case.
pub open spec fn is_secret(name: Seq<char>) -> bool {
    ||| name == "authorization"@
    ||| name == "proxy-authorization"@
    ||| name == "cookie"@
    ||| name == "set-cookie"@
    ||| name == "x-api-key"@
}

/// What is written down of a header.
pub open spec fn recorded_value(name: Seq<char>, value: Option<Seq<char>>) -> Seq<char> {
    if is_secret(lower(name)) {
        "<redacted>"@
    } else {
        text_or(value, "<binary>"@)
    }
}

/// What is written down of a run of headers. Of two with one name the later counts.
pub open spec fn recorded_headers(headers: Seq<Header>) -> Fields
    decreases headers.len(),
{
    if headers.len() == 0 {
        no_fields()
    } else {
        let last = headers.last();
        recorded_headers(headers.drop_last()).insert(
            lower(last.name@),
            JsonTree::Text(recorded_value(last.name@, opt_string(last.value))),
        )
    }
}

/// What is written down of the headers of a request: no secrets.
pub fn redacted_headers(headers: &Vec<Header>) -> (record: Json)
    ensures
        record@ == JsonTree::Object(recorded_headers(headers@)),
{
    let mut out = JsonObject::new();
    for i in 0..headers.len()
        invariant
            out@ == recorded_headers(headers@.take(i as int)),
    {
        proof {
            assert(headers@.take(i + 1).drop_last() =~= headers@.take(i as int));
        }
        let name = lowered(headers[i].name.as_str());
        let secret = same_text(name.as_str(), "authorization") || same_text(
            name.as_str(),
            "proxy-authorization",
        ) || same_text(name.as_str(), "cookie") || same_text(name.as_str(), "set-cookie")
            || same_text(name.as_str(), "x-api-key");
        let recorded = if secret {
            Json::text("<redacted>")
        } else {
            match &headers[i].value {
                Some(value) => Json::text(value.as_str()),
                None => Json::text("<binary>"),
            }
        };
        out.insert(name.as_str(), recorded);
    }
    proof {
        assert(headers@.take(headers@.len() as int) =~= headers@);
    }
    Json::Object(out)
}

/// No secret is written down: whatever the headers are, what is recorded under the name of a
/// secret one is the same.
pub proof fn law_secrets_are_redacted(headers: Seq<Header>, name: Seq<char>)
    requires
        is_secret(name),
    ensures
        recorded_headers(headers).dom().contains(name) ==> recorded_headers(headers)[name]
            == JsonTree::Text("<redacted>"@),
    decreases headers.len(),
{
    if headers.len() > 0 {
        law_secrets_are_redacted(headers.drop_last(), name);
    }
}

/// A text that is there and is not empty once trimmed.
pub open spec fn trimmed_or_none(text: Seq<char>) -> Option<Seq<char>> {
    if trim(text).len() > 0 {
        Some(trim(text))
    } else {
        None
    }
}

fn trim_or_none(text: &str) -> (out: Option<String>)
    ensures
        opt_string(out) == trimmed_or_none(text@),
{
    let out = trimmed(text);
    if out.as_str().is_empty() {
        None
    } else {
        Some(out)
    }
}

/// The address of a client, as the proxies in front tell it: the first of those that it was
/// forwarded for, or else the one that it connected from.
pub open spec fn client_address(
    forwarded_for: Option<Seq<char>>,
    connecting: Option<Seq<char>>,
) -> Option<Seq<char>> {
    let first = match forwarded_for {
        Some(list) => trimmed_or_none(split_on(list, ',')[0]),
        None => None,
    };
    if first is Some {
        first
    } else {
        match connecting {
            Some(address) => trimmed_or_none(address),
            None => None,
        }
    }
}

/// The address of a client, from the `x-forwarded-for` and `cf-connecting-ip` headers.
pub fn forwarded_client_ip(forwarded_for: Option<&str>, connecting: Option<&str>) -> (address:
    Option<String>)
    ensures
        opt_string(address) == client_address(opt_text(forwarded_for), opt_text(connecting)),
{
    if let Some(list) = forwarded_for {
        let parts = pieces(list, ',');
        proof {
            lemma_split_is_not_empty(list@, ',');
            assert(texts(parts@)[0] == parts@[0]@);
        }
        if let Some(address) = trim_or_none(parts[0].as_str()) {
            return Some(address);
        }
    }
    match connecting {
        Some(address) => trim_or_none(address),
        None => None,
    }
}

proof fn lemma_split_is_not_empty(text: Seq<char>, separator: char)
    ensures
        split_on(text, separator).len() > 0,
    decreases text.len(),
{
    if text.len() > 0 {
        lemma_split_is_not_empty(text.drop_last(), separator);
    }
}

/// The keys of an object in ascending order, and none of anything else.
pub open spec fn top_keys(body: JsonTree) -> Seq<Seq<char>> {
    match body {
        JsonTree::Object(fields) => in_order(fields.dom()),
        _ => Seq::empty(),
    }
}

/// The keys of an object, sorted.
pub fn top_level_keys(body: &Json) -> (keys: Vec<String>)
    ensures
        texts(keys@) == top_keys(body@),
{
    match body {
        Json::Object(object) => object.keys(),
        _ => {
            let none: Vec<String> = Vec::new();
            proof {
                assert(texts(none@) =~= Seq::empty());
            }
            none
        },
    }
}

/// A list of texts as JSON.
pub open spec fn text_list(list: Seq<Seq<char>>) -> JsonTree {
    JsonTree::List(list.map_values(|text: Seq<char>| JsonTree::Text(text)))
}

pub(crate) fn make_text_list(list: Vec<String>) -> (json: Json)
    ensures
        json@ == text_list(texts(list@)),
{
    let ghost all = texts(list@);
    let mut items: Vec<Json> = Vec::new();
    for text in it: list
        invariant
            it.seq() == list@,
            all == texts(list@),
            items@.len() == it.index(),
            forall|k: int|
                0 <= k < it.index() ==> (#[trigger] list_trees(items@)[k]) == JsonTree::Text(all[k]),
    {
        let ghost before = items@;
        items.push(Json::Text(text));
        proof {
            assert(list_trees(items@) == list_trees(before).push(JsonTree::Text(text@)));
        }
    }
    proof {
        assert(list_trees(items@) =~= all.map_values(|text: Seq<char>| JsonTree::Text(text)));
    }
    Json::List(items)
}

/// The role of a message, where it has one.
pub open spec fn role_of(message: JsonTree) -> Seq<Seq<char>> {
    match message.text_field("role"@) {
        Some(role) => seq![role],
        None => Seq::empty(),
    }
}

/// `role_of` as a function of the message.
pub open spec fn each_role() -> spec_fn(JsonTree) -> Seq<Seq<char>> {
    |message: JsonTree| role_of(message)
}

/// The kind of an input item: by its type, or else by its role.
pub open spec fn item_kind(item: JsonTree) -> Seq<char> {
    match item.text_field("type"@) {
        Some(kind) => "type:"@ + kind,
        None => match item.text_field("role"@) {
            Some(role) => "role:"@ + role,
            None => "item"@,
        },
    }
}

/// The kinds of the first input items.
pub open spec fn item_kinds(items: Seq<JsonTree>) -> Seq<Seq<char>> {
    let shown = if items.len() > 32 {
        items.take(32)
    } else {
        items
    };
    shown.map_values(|item: JsonTree| item_kind(item))
}

/// A count as JSON.
pub open spec fn count_tree(count: nat) -> JsonTree {
    JsonTree::Number(number_of_unsigned(count as u64))
}

/// The fields with what is said of the messages of a request.
pub open spec fn with_messages_summary(fields: Fields, body: JsonTree) -> Fields {
    match body.list_field("messages"@) {
        Some(messages) => fields.insert("messages_len"@, count_tree(messages.len())).insert(
            "messages_roles"@,
            text_list(flat(messages, each_role())),
        ),
        None => fields,
    }
}

/// The fields with what is said of the input of a request.
pub open spec fn with_input_summary(fields: Fields, body: JsonTree) -> Fields {
    match body.list_field("input"@) {
        Some(items) => fields.insert("input_len"@, count_tree(items.len())).insert(
            "input_kinds"@,
            text_list(item_kinds(items)),
        ),
        None => fields,
    }
}

/// What is said of a value that is no object.
pub open spec fn kind_summary(kind: Seq<char>) -> Fields {
    no_fields().insert("kind"@, JsonTree::Text(kind))
}

/// What is said of the body of a request, and nothing of what it holds.
pub open spec fn payload_summary(body: JsonTree) -> JsonTree {
    JsonTree::Object(
        match body {
            JsonTree::Object(_) => with_input_summary(
                with_messages_summary(
                    no_fields().insert("top_level_keys"@, text_list(top_keys(body))),
                    body,
                ),
                body,
            ),
            JsonTree::Null => kind_summary("null"@),
            JsonTree::List(items) => kind_summary("array"@).insert(
                "length"@,
                count_tree(items.len()),
            ),
            JsonTree::Text(_) => kind_summary("string"@),
            JsonTree::Bool(_) => kind_summary("boolean"@),
            JsonTree::Number(_) => kind_summary("number"@),
        },
    )
}

fn collect_roles(messages: &Vec<Json>) -> (roles: Vec<String>)
    ensures
        texts(roles@) == flat(list_trees(messages@), each_role()),
{
    let ghost all = list_trees(messages@);
    let mut roles: Vec<String> = Vec::new();
    proof {
        assert(texts(roles@) =~= flat(all.take(0), each_role()));
    }
    for i in 0..messages.len()
        invariant
            all == list_trees(messages@),
            texts(roles@) == flat(all.take(i as int), each_role()),
    {
        let ghost before = roles@;
        proof {
            assert(all.take(i + 1).drop_last() =~= all.take(i as int));
        }
        if let Some(role) = messages[i].text_field("role") {
            roles.push(role.to_owned());
        }
        proof {
            assert(texts(roles@) =~= texts(before) + role_of(all[i as int]));
        }
    }
    proof {
        assert(all.take(all.len() as int) =~= all);
    }
    roles
}

fn make_item_kind(item: &Json) -> (kind: String)
    ensures
        kind@ == item_kind(item@),
{
    match item.text_field("type") {
        Some(kind) => concat("type:", kind),
        None => match item.text_field("role") {
            Some(role) => concat("role:", role),
            None => "item".to_owned(),
        },
    }
}

fn collect_kinds(items: &Vec<Json>) -> (kinds: Vec<String>)
    ensures
        texts(kinds@) == item_kinds(list_trees(items@)),
{
    let ghost all = list_trees(items@);
    let shown: usize = if items.len() > 32 {
        32
    } else {
        items.len()
    };
    let mut kinds: Vec<String> = Vec::new();
    for i in 0..shown
        invariant
            all == list_trees(items@),
            shown <= items@.len(),
            kinds@.len() == i,
            forall|k: int| 0 <= k < i ==> (#[trigger] kinds@[k])@ == item_kind(all[k]),
    {
        kinds.push(make_item_kind(&items[i]));
    }
    proof {
        assert(texts(kinds@) =~= item_kinds(all));
    }
    kinds
}

/// What is said of the body of a request in the log: its shape, and nothing of what it holds.
pub fn summarize_client_payload(body: &Json) -> (summary: Json)
    ensures
        summary@ == payload_summary(body@),
{
    let kind = match body {
        Json::Object(_) => {
            let mut summary = JsonObject::new().with(
                "top_level_keys",
                make_text_list(top_level_keys(body)),
            );
            if let Some(messages) = body.list_field("messages") {
                summary.insert("messages_len", Json::count(messages.len() as u64));
                summary.insert("messages_roles", make_text_list(collect_roles(messages)));
            }
            if let Some(items) = body.list_field("input") {
                summary.insert("input_len", Json::count(items.len() as u64));
                summary.insert("input_kinds", make_text_list(collect_kinds(items)));
            }
            return Json::Object(summary);
        },
        Json::List(items) => {
            return Json::Object(
                JsonObject::new().with("kind", Json::text("array")).with(
                    "length",
                    Json::count(items.len() as u64),
                ),
            );
        },
        Json::Null => "null",
        Json::Text(_) => "string",
        Json::Bool(_) => "boolean",
        Json::Number(_) => "number",
    };
    Json::Object(JsonObject::new().with("kind", Json::text(kind)))
}

/// An optional text as JSON.
pub open spec fn text_or_null(text: Option<Seq<char>>) -> JsonTree {
    match text {
        Some(text) => JsonTree::Text(text),
        None => JsonTree::Null,
    }
}

pub(crate) fn make_text_or_null(text: Option<&str>) -> (json: Json)
    ensures
        json@ == text_or_null(opt_text(text)),
{
    match text {
        Some(text) => Json::text(text),
        None => Json::Null,
    }
}

/// A member of what is known of a request.
pub open spec fn origin_text(origin: Option<Origin>, member: spec_fn(Origin) -> Seq<char>) -> Option<
    Seq<char>,
> {
    match origin {
        Some(origin) => Some(member(origin)),
        None => None,
    }
}

/// A member of what is known of a request, which it may lack.
pub open spec fn origin_opt(
    origin: Option<Origin>,
    member: spec_fn(Origin) -> Option<Seq<char>>,
) -> Option<Seq<char>> {
    match origin {
        Some(origin) => member(origin),
        None => None,
    }
}

pub(crate) fn id_of<'a>(context: Option<&'a RequestContext>) -> (text: Option<&'a str>)
    ensures
        opt_text(text) == origin_text(opt_origin(context), |origin: Origin| origin.request_id),
{
    match context {
        Some(context) => Some(context.request_id.as_str()),
        None => None,
    }
}

pub(crate) fn method_of<'a>(context: Option<&'a RequestContext>) -> (text: Option<&'a str>)
    ensures
        opt_text(text) == origin_text(opt_origin(context), |origin: Origin| origin.method),
{
    match context {
        Some(context) => Some(context.method.as_str()),
        None => None,
    }
}

pub(crate) fn path_of<'a>(context: Option<&'a RequestContext>) -> (text: Option<&'a str>)
    ensures
        opt_text(text) == origin_text(opt_origin(context), |origin: Origin| origin.path),
{
    match context {
        Some(context) => Some(context.path.as_str()),
        None => None,
    }
}

pub(crate) fn route_of<'a>(context: Option<&'a RequestContext>) -> (text: Option<&'a str>)
    ensures
        opt_text(text) == origin_text(opt_origin(context), |origin: Origin| origin.route_kind),
{
    match context {
        Some(context) => Some(context.route_kind),
        None => None,
    }
}

fn some_str<'a>(text: &'a Option<String>) -> (out: Option<&'a str>)
    ensures
        opt_text(out) == opt_string(*text),
{
    match text {
        Some(text) => Some(text.as_str()),
        None => None,
    }
}

pub(crate) fn content_type_of<'a>(context: Option<&'a RequestContext>) -> (text: Option<&'a str>)
    ensures
        opt_text(text) == origin_opt(opt_origin(context), |origin: Origin| origin.content_type),
{
    match context {
        Some(context) => some_str(&context.content_type),
        None => None,
    }
}

pub(crate) fn client_ip_of<'a>(context: Option<&'a RequestContext>) -> (text: Option<&'a str>)
    ensures
        opt_text(text) == origin_opt(opt_origin(context), |origin: Origin| origin.client_ip),
{
    match context {
        Some(context) => some_str(&context.client_ip),
        None => None,
    }
}

fn client_id_of<'a>(context: Option<&'a RequestContext>) -> (text: Option<&'a str>)
    ensures
        opt_text(text) == origin_opt(
            opt_origin(context),
            |origin: Origin| origin.client_request_id,
        ),
{
    match context {
        Some(context) => some_str(&context.client_request_id),
        None => None,
    }
}

pub(crate) fn text_or_default<'a>(text: Option<&'a str>, default: &'a str) -> (out: &'a str)
    ensures
        out@ == text_or(opt_text(text), default@),
{
    match text {
        Some(text) => text,
        None => default,
    }
}

/// The id of a request: its own, or a new one where nothing is known of it.
pub fn request_id_of(context: Option<&RequestContext>) -> (id: String)
    ensures
        (match context {
            Some(context) => id@ == context@.request_id,
            None => is_grouped_id(id@),
        }),
{
    match context {
        Some(context) => context.request_id.clone(),
        None => grouped_id(),
    }
}

/// The log record of a request with a JSON body.
pub open spec fn request_record(
    time: i64,
    id: Seq<char>,
    origin: Option<Origin>,
    headers: Option<JsonTree>,
    phase: Seq<char>,
    body: JsonTree,
    sanitized: Option<JsonTree>,
) -> JsonTree {
    let method = text_or(origin_text(origin, |origin: Origin| origin.method), "POST"@);
    let path = text_or(origin_text(origin, |origin: Origin| origin.path), ""@);
    let route = text_or(origin_text(origin, |origin: Origin| origin.route_kind), "other"@);
    let content = text_or(
        origin_opt(origin, |origin: Origin| origin.content_type),
        "application/json"@,
    );
    JsonTree::Object(
        no_fields().insert("ts"@, JsonTree::Number(number_of_signed(time))).insert(
            "phase"@,
            JsonTree::Text(phase),
        ).insert("request_id"@, JsonTree::Text(id)).insert(
            "method"@,
            JsonTree::Text(method),
        ).insert("path"@, JsonTree::Text(path)).insert(
            "route_kind"@,
            JsonTree::Text(route),
        ).insert("content_type"@, JsonTree::Text(content)).insert(
            "body_bytes"@,
            count_tree(encode_utf8(printed(body)).len()),
        ).insert("top_level_keys"@, text_list(top_keys(body))).insert(
            "payload_summary"@,
            payload_summary(body),
        ).insert(
            "client_ip"@,
            text_or_null(origin_opt(origin, |origin: Origin| origin.client_ip)),
        ).insert(
            "client_request_id"@,
            text_or_null(origin_opt(origin, |origin: Origin| origin.client_request_id)),
        ).insert(
            "headers"@,
            match headers {
                Some(headers) => headers,
                None => JsonTree::Null,
            },
        ).insert(
            "sanitized_top_level_keys"@,
            match sanitized {
                Some(sanitized) => text_list(top_keys(sanitized)),
                None => JsonTree::Null,
            },
        ),
    )
}

/// The log record of a request with a JSON body, where `headers` is what is written down of its
/// headers and `sanitized` what is sent upstream for it.
pub fn json_request_record(
    time: i64,
    id: &str,
    context: Option<&RequestContext>,
    headers: Option<&Vec<Header>>,
    phase: &str,
    body: &Json,
    sanitized: Option<&Json>,
) -> (record: Json)
    ensures
        record@ == request_record(
            time,
            id@,
            opt_origin(context),
            match headers {
                Some(headers) => Some(JsonTree::Object(recorded_headers(headers@))),
                None => None,
            },
            phase@,
            body@,
            opt_tree(sanitized),
        ),
{
    let text = print_json(body);
    let written = match headers {
        Some(headers) => redacted_headers(headers),
        None => Json::Null,
    };
    let sanitized_keys = match sanitized {
        Some(sanitized) => make_text_list(top_level_keys(sanitized)),
        None => Json::Null,
    };
    Json::Object(
        JsonObject::new().with("ts", Json::integer(time)).with("phase", Json::text(phase)).with(
            "request_id",
            Json::text(id),
        ).with("method", Json::text(text_or_default(method_of(context), "POST"))).with(
            "path",
            Json::text(text_or_default(path_of(context), "")),
        ).with("route_kind", Json::text(text_or_default(route_of(context), "other"))).with(
            "content_type",
            Json::text(text_or_default(content_type_of(context), "application/json")),
        ).with("body_bytes", Json::count(text.as_str().as_bytes().len() as u64)).with(
            "top_level_keys",
            make_text_list(top_level_keys(body)),
        ).with("payload_summary", summarize_client_payload(body)).with(
            "client_ip",
            make_text_or_null(client_ip_of(context)),
        ).with("client_request_id", make_text_or_null(client_id_of(context))).with(
            "headers",
            written,
        ).with("sanitized_top_level_keys", sanitized_keys),
    )
}

/// The start of a text.
pub open spec fn preview(text: Seq<char>) -> Seq<char> {
    if text.len() > 512 {
        text.take(512)
    } else {
        text
    }
}

/// The log record of a request for a route that there is not, by the value that its body holds.
pub open spec fn unmatched_record(
    time: i64,
    id: Seq<char>,
    method: Seq<char>,
    path: Seq<char>,
    content_type: Option<Seq<char>>,
    origin: Option<Origin>,
    headers: Seq<Header>,
    body: Seq<u8>,
    parsed: Option<JsonTree>,
) -> JsonTree {
    JsonTree::Object(
        no_fields().insert("ts"@, JsonTree::Number(number_of_signed(time))).insert(
            "phase"@,
            JsonTree::Text("unmatched_request"@),
        ).insert("request_id"@, JsonTree::Text(id)).insert(
            "method"@,
            JsonTree::Text(method),
        ).insert("path"@, JsonTree::Text(path)).insert(
            "route_kind"@,
            JsonTree::Text(path_kind(path)),
        ).insert("content_type"@, text_or_null(content_type)).insert(
            "body_bytes"@,
            count_tree(body.len()),
        ).insert(
            "top_level_keys"@,
            match parsed {
                Some(parsed) => text_list(top_keys(parsed)),
                None => JsonTree::Null,
            },
        ).insert(
            "payload_summary"@,
            match parsed {
                Some(parsed) => payload_summary(parsed),
                None => JsonTree::Null,
            },
        ).insert(
            "text_preview"@,
            if parsed is None && lossy_text(body).len() > 0 {
                JsonTree::Text(preview(lossy_text(body)))
            } else {
                JsonTree::Null
            },
        ).insert(
            "client_ip"@,
            text_or_null(origin_opt(origin, |origin: Origin| origin.client_ip)),
        ).insert(
            "client_request_id"@,
            text_or_null(origin_opt(origin, |origin: Origin| origin.client_request_id)),
        ).insert("headers"@, JsonTree::Object(recorded_headers(headers))),
    )
}

/// A request for a route that there is not.
pub struct UnmatchedRequest<'a> {
    pub method: &'a str,
    pub path: &'a str,
    pub content_type: Option<&'a str>,
    pub headers: &'a Vec<Header>,
    pub body: &'a [u8],
}

/// The log record of a request for a route that there is not. What is known of the request from
/// before goes before what it says itself.
pub fn unmatched_request_record(
    time: i64,
    id: &str,
    context: Option<&RequestContext>,
    request: &UnmatchedRequest,
) -> (record: Json)
    ensures
        record@ == unmatched_record(
            time,
            id@,
            text_or(
                origin_text(opt_origin(context), |origin: Origin| origin.method),
                request.method@,
            ),
            text_or(
                origin_text(opt_origin(context), |origin: Origin| origin.path),
                request.path@,
            ),
            match origin_opt(opt_origin(context), |origin: Origin| origin.content_type) {
                Some(content_type) => Some(content_type),
                None => opt_text(request.content_type),
            },
            opt_origin(context),
            request.headers@,
            request.body@,
            parsed_bytes(request.body@),
        ),
{
    let parsed = parse_json_bytes(request.body);
    parsed_unmatched_record(time, id, context, request, parsed)
}

/// The log record of a request for a route that there is not, with the value that its body holds.
pub fn parsed_unmatched_record(
    time: i64,
    id: &str,
    context: Option<&RequestContext>,
    request: &UnmatchedRequest,
    parsed: Option<Json>,
) -> (record: Json)
    ensures
        record@ == unmatched_record(
            time,
            id@,
            text_or(
                origin_text(opt_origin(context), |origin: Origin| origin.method),
                request.method@,
            ),
            text_or(
                origin_text(opt_origin(context), |origin: Origin| origin.path),
                request.path@,
            ),
            match origin_opt(opt_origin(context), |origin: Origin| origin.content_type) {
                Some(content_type) => Some(content_type),
                None => opt_text(request.content_type),
            },
            opt_origin(context),
            request.headers@,
            request.body@,
            opt_json(parsed),
        ),
{
    let method = text_or_default(method_of(context), request.method);
    let path = text_or_default(path_of(context), request.path);
    let content_type = match content_type_of(context) {
        Some(content_type) => Some(content_type),
        None => request.content_type,
    };
    let (keys, summary) = match &parsed {
        Some(parsed) => (
            make_text_list(top_level_keys(parsed)),
            summarize_client_payload(parsed),
        ),
        None => (Json::Null, Json::Null),
    };
    let text = read_lossy(request.body);
    let text_preview = if parsed.is_none() && !text.as_str().is_empty() {
        Json::Text(make_preview(text.as_str()))
    } else {
        Json::Null
    };
    Json::Object(
        JsonObject::new().with("ts", Json::integer(time)).with(
            "phase",
            Json::text("unmatched_request"),
        ).with("request_id", Json::text(id)).with("method", Json::text(method)).with(
            "path",
            Json::text(path),
        ).with("route_kind", Json::text(classify_pathname(path))).with(
            "content_type",
            make_text_or_null(content_type),
        ).with("body_bytes", Json::count(request.body.len() as u64)).with(
            "top_level_keys",
            keys,
        ).with("payload_summary", summary).with("text_preview", text_preview).with(
            "client_ip",
            make_text_or_null(client_ip_of(context)),
        ).with("client_request_id", make_text_or_null(client_id_of(context))).with(
            "headers",
            redacted_headers(request.headers),
        ),
    )
}

fn make_preview(text: &str) -> (out: String)
    ensures
        out@ == preview(text@),
{
    let chars = chars_of(text);
    let shown: usize = if chars.len() > 512 {
        512
    } else {
        chars.len()
    };
    let out = text_of(&chars, 0, shown);
    proof {
        assert(out@ =~= preview(text@));
    }
    out
}

/// The answer to a request for a route that there is not.
pub fn unmatched_route_error(path: &str) -> (error: ErrorResponse)
    ensures
        error@ == (ErrorAnswer {
            status: 404,
            message: "Unsupported route: "@ + path@
                + ". Check proxy request logs for diagnostics."@,
            error_type: Some("invalid_request_error"@),
            code: None,
            param: None,
        }),
{
    let start = concat("Unsupported route: ", path);
    let message = concat(start.as_str(), ". Check proxy request logs for diagnostics.");
    json_error_with_type(404, message.as_str(), Some("invalid_request_error"))
}

} // verus!
