use vstd::prelude::*;

use crate::json::{group_json, no_fields, opt_field, Fields, Json, JsonObject, JsonTree};
use crate::logging::{
    client_ip_of, content_type_of, id_of, make_text_list, make_text_or_null, method_of, origin_opt,
    origin_text, path_of, route_of, text_list, text_or_default, text_or_null,
};
use crate::serde_bridge::{number_of_signed, number_of_unsigned};
use crate::state::{opt_origin, Origin, RequestContext};
use crate::text::{opt_text, text_or, texts};

verus! {

broadcast use group_json;

/// What the log says of the request behind a record.
pub open spec fn origin_fields(time: i64, phase: Seq<char>, origin: Option<Origin>) -> Fields {
    no_fields().insert("ts"@, JsonTree::Number(number_of_signed(time))).insert(
        "phase"@,
        JsonTree::Text(phase),
    ).insert(
        "request_id"@,
        text_or_null(origin_text(origin, |origin: Origin| origin.request_id)),
    ).insert("path"@, text_or_null(origin_text(origin, |origin: Origin| origin.path))).insert(
        "route_kind"@,
        text_or_null(origin_text(origin, |origin: Origin| origin.route_kind)),
    )
}

fn make_origin_fields(time: i64, phase: &str, context: Option<&RequestContext>) -> (object:
    JsonObject)
    ensures
        object@ == origin_fields(time, phase@, opt_origin(context)),
{
    JsonObject::new().with("ts", Json::integer(time)).with("phase", Json::text(phase)).with(
        "request_id",
        make_text_or_null(id_of(context)),
    ).with("path", make_text_or_null(path_of(context))).with(
        "route_kind",
        make_text_or_null(route_of(context)),
    )
}

/// The log record of an upstream that has answered.
pub fn upstream_open_record(
    time: i64,
    context: Option<&RequestContext>,
    status: u16,
    endpoint: &str,
) -> (record: Json)
    ensures
        record@ == JsonTree::Object(
            origin_fields(time, "upstream_open"@, opt_origin(context)).insert(
                "status"@,
                JsonTree::Number(number_of_unsigned(status as u64)),
            ).insert("endpoint"@, JsonTree::Text(endpoint@)),
        ),
{
    Json::Object(
        make_origin_fields(time, "upstream_open", context).with(
            "status",
            Json::count(status as u64),
        ).with("endpoint", Json::text(endpoint)),
    )
}

/// The times that a response took, in milliseconds, each a number or nothing.
pub struct AggregateTimes {
    pub normalization_ms: Json,
    pub upstream_open_ms: Json,
    pub first_chunk_ms: Json,
    pub first_event_ms: Json,
    pub end_to_end_ms: Json,
}

/// What the log says of a response that was waited for.
pub open spec fn aggregate_fields(
    base: Fields,
    payload: JsonTree,
    times: AggregateTimes,
    counts: (u64, u64, u64),
) -> Fields {
    base.insert("service_tier"@, text_or_null(payload.text_field("service_tier"@))).insert(
        "normalization_ms"@,
        times.normalization_ms@,
    ).insert("upstream_open_ms"@, times.upstream_open_ms@).insert(
        "first_chunk_ms"@,
        times.first_chunk_ms@,
    ).insert("first_event_ms"@, times.first_event_ms@).insert(
        "end_to_end_ms"@,
        times.end_to_end_ms@,
    ).insert("chunk_count"@, JsonTree::Number(number_of_unsigned(counts.0))).insert(
        "event_count"@,
        JsonTree::Number(number_of_unsigned(counts.1)),
    ).insert("bytes_received"@, JsonTree::Number(number_of_unsigned(counts.2)))
}

fn add_aggregate_fields(
    base: JsonObject,
    payload: &Json,
    times: AggregateTimes,
    counts: (u64, u64, u64),
) -> (object: JsonObject)
    ensures
        object@ == aggregate_fields(base@, payload@, times, counts),
{
    base.with("service_tier", make_text_or_null(payload.text_field("service_tier"))).with(
        "normalization_ms",
        times.normalization_ms,
    ).with("upstream_open_ms", times.upstream_open_ms).with(
        "first_chunk_ms",
        times.first_chunk_ms,
    ).with("first_event_ms", times.first_event_ms).with("end_to_end_ms", times.end_to_end_ms).with(
        "chunk_count",
        Json::count(counts.0),
    ).with("event_count", Json::count(counts.1)).with("bytes_received", Json::count(counts.2))
}

/// A count of the usage of a response, where it is told.
pub open spec fn told_usage(response: JsonTree, key: Seq<char>) -> JsonTree {
    match opt_field(response.field("usage"@), key) {
        Some(value) => match value.as_integer() {
            Some(count) => JsonTree::Number(number_of_signed(count)),
            None => JsonTree::Null,
        },
        None => JsonTree::Null,
    }
}

fn make_told_usage(response: &Json, key: &str) -> (count: Json)
    ensures
        count@ == told_usage(response@, key@),
{
    match response.get("usage") {
        Some(usage) => match usage.integer_field(key) {
            Some(count) => Json::integer(count),
            None => Json::Null,
        },
        None => Json::Null,
    }
}

/// The log record of a response that has come.
pub fn aggregate_complete_record(
    time: i64,
    context: Option<&RequestContext>,
    payload: &Json,
    times: AggregateTimes,
    response_completed_ms: Json,
    counts: (u64, u64, u64),
    response: &Json,
) -> (record: Json)
    ensures
        record@ == JsonTree::Object(
            aggregate_fields(
                origin_fields(time, "responses_aggregate_complete"@, opt_origin(context)),
                payload@,
                times,
                counts,
            ).insert("response_completed_ms"@, response_completed_ms@).insert(
                "output_tokens"@,
                told_usage(response@, "output_tokens"@),
            ).insert("total_tokens"@, told_usage(response@, "total_tokens"@)),
        ),
{
    let base = make_origin_fields(time, "responses_aggregate_complete", context);
    Json::Object(
        add_aggregate_fields(base, payload, times, counts).with(
            "response_completed_ms",
            response_completed_ms,
        ).with("output_tokens", make_told_usage(response, "output_tokens")).with(
            "total_tokens",
            make_told_usage(response, "total_tokens"),
        ),
    )
}

/// The log record of a response that never came.
pub fn aggregate_incomplete_record(
    time: i64,
    context: Option<&RequestContext>,
    payload: &Json,
    times: AggregateTimes,
    counts: (u64, u64, u64),
) -> (record: Json)
    ensures
        record@ == JsonTree::Object(
            aggregate_fields(
                origin_fields(time, "responses_aggregate_incomplete"@, opt_origin(context)),
                payload@,
                times,
                counts,
            ),
        ),
{
    let base = make_origin_fields(time, "responses_aggregate_incomplete", context);
    Json::Object(add_aggregate_fields(base, payload, times, counts))
}

/// The log record of an upload, by the names of its fields and a hint at the file.
pub open spec fn multipart_record(
    time: i64,
    id: Seq<char>,
    origin: Option<Origin>,
    names: Seq<Seq<char>>,
    hint: Option<Seq<char>>,
) -> JsonTree {
    let method = text_or(origin_text(origin, |origin: Origin| origin.method), "POST"@);
    let path = text_or(origin_text(origin, |origin: Origin| origin.path), "/v1/files"@);
    let route = text_or(origin_text(origin, |origin: Origin| origin.route_kind), "files"@);
    let hints = match hint {
        Some(hint) => no_fields().insert("file"@, JsonTree::Text(hint)),
        None => no_fields(),
    };
    JsonTree::Object(
        no_fields().insert("ts"@, JsonTree::Number(number_of_signed(time))).insert(
            "phase"@,
            JsonTree::Text("client_multipart"@),
        ).insert("request_id"@, JsonTree::Text(id)).insert(
            "method"@,
            JsonTree::Text(method),
        ).insert("path"@, JsonTree::Text(path)).insert(
            "route_kind"@,
            JsonTree::Text(route),
        ).insert(
            "content_type"@,
            text_or_null(origin_opt(origin, |origin: Origin| origin.content_type)),
        ).insert("field_names"@, text_list(names)).insert(
            "file_hints"@,
            JsonTree::Object(hints),
        ).insert(
            "client_ip"@,
            text_or_null(origin_opt(origin, |origin: Origin| origin.client_ip)),
        ),
    )
}

/// The log record of an upload.
pub fn client_multipart_record(
    time: i64,
    id: &str,
    context: Option<&RequestContext>,
    field_names: Vec<String>,
    hint: Option<&str>,
) -> (record: Json)
    ensures
        record@ == multipart_record(
            time,
            id@,
            opt_origin(context),
            texts(field_names@),
            opt_text(hint),
        ),
{
    let hints = match hint {
        Some(hint) => JsonObject::new().with("file", Json::text(hint)),
        None => JsonObject::new(),
    };
    Json::Object(
        JsonObject::new().with("ts", Json::integer(time)).with(
            "phase",
            Json::text("client_multipart"),
        ).with("request_id", Json::text(id)).with(
            "method",
            Json::text(text_or_default(method_of(context), "POST")),
        ).with("path", Json::text(text_or_default(path_of(context), "/v1/files"))).with(
            "route_kind",
            Json::text(text_or_default(route_of(context), "files")),
        ).with("content_type", make_text_or_null(content_type_of(context))).with(
            "field_names",
            make_text_list(field_names),
        ).with("file_hints", Json::Object(hints)).with(
            "client_ip",
            make_text_or_null(client_ip_of(context)),
        ),
    )
}

} // verus!
