pub mod content;
pub mod content_laws;
pub mod field_laws;
pub mod fields;
pub mod laws;
pub mod request_laws;
pub mod settling;

use vstd::prelude::*;

use crate::errors::{json_error, plain_error, ErrorAnswer, ErrorResponse};
use crate::files::{FileError, FileGap, FileTable, Files};
use crate::json::{copy_list, group_json, list_of, list_trees, Fields, Json, JsonObject, JsonTree};
use crate::normalization::content::{
    input_items, messages_input, messages_to_input, normalize_input_items,
};
use crate::normalization::fields::{
    aliased, apply_model_alias, compatible, ensure_instructions, ensure_parallel_tool_calls,
    ensure_reasoning_encrypted_content, extract_client_stream_options, has_supported_model,
    map_legacy_chat_tool_fields, map_openai_compat_fields, map_web_search_options_to_tool,
    merge_instructions, normalize_responses_input_shape, promote_instruction_items, promoted,
    sanitize_include_values, sanitize_tool_types, sanitize_upstream_payload, sanitized,
    unsupported_model_answer, validate_supported_model, wants_usage, with_default_instructions,
    with_encrypted_reasoning, with_function_choice, with_function_tools, with_instructions,
    with_listed_input, with_parallel_tool_calls, with_supported_include, with_supported_tools,
    with_web_search_tool,
};
use crate::state::ClientStreamOptions;
use crate::text::opt_text;
use crate::text_map::{string_table, TextMap};

verus! {

broadcast use group_json;

/// Why a request cannot be sent upstream.
pub enum NormalizeError {
    /// It is refused with this answer.
    Refused(ErrorResponse),
    /// The file with this id has to be looked up first.
    FileNeeded(String),
}

/// Why a request cannot be sent upstream, by the texts involved.
pub enum Refusal {
    Refused(ErrorAnswer),
    FileNeeded(Seq<char>),
}

impl View for NormalizeError {
    type V = Refusal;

    open spec fn view(&self) -> Refusal {
        match self {
            NormalizeError::Refused(error) => Refusal::Refused(error@),
            NormalizeError::FileNeeded(id) => Refusal::FileNeeded(id@),
        }
    }
}

/// What becomes of a request that lacks a file.
pub open spec fn file_refusal(gap: FileGap) -> Refusal {
    match gap {
        FileGap::Needed(id) => Refusal::FileNeeded(id),
        FileGap::Unavailable => Refusal::Refused(
            plain_error(404, "A referenced file_id is unknown, deleted, or expired"@),
        ),
    }
}

/// The refusal of a request that lacks a file.
pub fn normalize_input_error_response(error: FileError) -> (refusal: NormalizeError)
    ensures
        refusal@ == file_refusal(error@),
{
    match error {
        FileError::Needed(id) => NormalizeError::FileNeeded(id),
        FileError::Unavailable => NormalizeError::Refused(
            json_error(404, "A referenced file_id is unknown, deleted, or expired"),
        ),
    }
}

/// The request with its model settled and its fields in the words of the upstream.
#[verifier::opaque]
pub open spec fn prepared(aliases: Map<Seq<char>, Seq<char>>, fields: Fields) -> Fields {
    compatible(with_function_choice(with_function_tools(aliased(aliases, fields))))
}

/// The request with its input in the upstream form.
pub open spec fn with_input(files: Files, fields: Fields) -> Result<Fields, Refusal> {
    let listed = with_listed_input(fields);
    match input_items(files, listed["input"@]) {
        Ok(input) => Ok(listed.insert("input"@, input)),
        Err(gap) => Err(file_refusal(gap)),
    }
}

/// The request with its chat messages as input and instructions.
pub open spec fn with_messages(files: Files, fields: Fields, messages: Seq<JsonTree>) -> Result<
    Fields,
    Refusal,
> {
    match messages_input(files, messages) {
        Ok((items, instructions)) => Ok(
            with_instructions(
                fields.insert("input"@, JsonTree::List(items)),
                instructions,
            ).remove("messages"@),
        ),
        Err(gap) => Err(file_refusal(gap)),
    }
}

/// The request as it is sent upstream, once its input is in the upstream form.
#[verifier::opaque]
pub open spec fn completed(fields: Fields, default: Option<Seq<char>>) -> Fields {
    let streamed = promoted(fields).insert("store"@, JsonTree::Bool(false)).insert(
        "stream"@,
        JsonTree::Bool(true),
    );
    let instructed = with_default_instructions(streamed, default);
    let reasoned = with_parallel_tool_calls(with_encrypted_reasoning(instructed));
    sanitized(with_supported_tools(with_supported_include(with_web_search_tool(reasoned))))
}

/// A request of the responses route with its input in the upstream form.
///
/// Where a request has both input and messages, the input counts.
pub open spec fn responses_input(files: Files, request: Fields) -> Result<Fields, Refusal> {
    if request.dom().contains("input"@) {
        match with_input(files, request) {
            Ok(request) => Ok(request.remove("messages"@)),
            Err(refusal) => Err(refusal),
        }
    } else {
        match list_of(request, "messages"@) {
            Some(messages) => with_messages(files, request, messages),
            None => Ok(request.insert("input"@, JsonTree::List(Seq::empty()))),
        }
    }
}

/// A request of the chat route with its input in the upstream form.
///
/// Where a request has both input and messages, the messages count.
pub open spec fn chat_input(files: Files, request: Fields) -> Result<Fields, Refusal> {
    match list_of(request, "messages"@) {
        Some(messages) => with_messages(files, request, messages),
        None => if request.dom().contains("input"@) {
            with_input(files, request)
        } else {
            Err(
                Refusal::Refused(
                    plain_error(400, "chat/completions requires either messages or input"@),
                ),
            )
        },
    }
}

/// What is said of a payload before its input is looked at: its fields, or a refusal.
pub open spec fn opened(aliases: Map<Seq<char>, Seq<char>>, payload: JsonTree) -> Result<
    Fields,
    Refusal,
> {
    match payload {
        JsonTree::Object(fields) => if has_supported_model(aliased(aliases, fields)) {
            Ok(prepared(aliases, fields))
        } else {
            Err(Refusal::Refused(unsupported_model_answer()))
        },
        _ => Err(Refusal::Refused(plain_error(400, "Request body must be a JSON object"@))),
    }
}

/// The request that a call of the responses route sends upstream.
pub open spec fn responses_request(
    aliases: Map<Seq<char>, Seq<char>>,
    files: Files,
    default: Option<Seq<char>>,
    payload: JsonTree,
) -> Result<Fields, Refusal> {
    match opened(aliases, payload) {
        Ok(request) => match responses_input(files, request) {
            Ok(request) => Ok(completed(request, default)),
            Err(refusal) => Err(refusal),
        },
        Err(refusal) => Err(refusal),
    }
}

/// The request that a call of the chat route sends upstream.
pub open spec fn chat_request(
    aliases: Map<Seq<char>, Seq<char>>,
    files: Files,
    default: Option<Seq<char>>,
    payload: JsonTree,
) -> Result<Fields, Refusal> {
    match opened(aliases, payload) {
        Ok(request) => match chat_input(files, request) {
            Ok(request) => Ok(completed(request, default)),
            Err(refusal) => Err(refusal),
        },
        Err(refusal) => Err(refusal),
    }
}

/// The outcome of a step on a request, by what it holds.
pub open spec fn request_outcome(outcome: Result<JsonObject, NormalizeError>) -> Result<
    Fields,
    Refusal,
> {
    match outcome {
        Ok(object) => Ok(object@),
        Err(error) => Err(error@),
    }
}

fn open_payload(aliases: &TextMap<String>, payload: &Json) -> (outcome: Result<
    (JsonObject, ClientStreamOptions),
    NormalizeError,
>)
    ensures
        (match outcome {
            Ok((object, options)) => opened(string_table(*aliases), payload@) == Ok::<
                Fields,
                Refusal,
            >(object@) && options.include_usage == wants_usage(payload@->Object_0),
            Err(error) => opened(string_table(*aliases), payload@) == Err::<Fields, Refusal>(
                error@,
            ),
        }),
{
    let mut object = match payload.as_object() {
        Some(object) => object.copy(),
        None => {
            return Err(
                NormalizeError::Refused(json_error(400, "Request body must be a JSON object")),
            );
        },
    };
    proof {
        reveal(prepared);
    }
    let options = extract_client_stream_options(&object);
    apply_model_alias(aliases, &mut object);
    if let Err(error) = validate_supported_model(&object) {
        return Err(NormalizeError::Refused(error));
    }
    map_legacy_chat_tool_fields(&mut object);
    map_openai_compat_fields(&mut object);
    Ok((object, options))
}

fn normalize_input(files: &FileTable, object: JsonObject) -> (outcome: Result<
    JsonObject,
    NormalizeError,
>)
    ensures
        request_outcome(outcome) == with_input(files@, object@),
{
    let mut object = object;
    normalize_responses_input_shape(&mut object);
    let normalized = match object.get("input") {
        Some(input) => normalize_input_items(files, input),
        None => Ok(Json::List(Vec::new())),
    };
    match normalized {
        Ok(input) => {
            object.insert("input", input);
            Ok(object)
        },
        Err(error) => Err(normalize_input_error_response(error)),
    }
}

fn normalize_messages(files: &FileTable, object: JsonObject, messages: Vec<Json>) -> (outcome:
    Result<JsonObject, NormalizeError>)
    ensures
        request_outcome(outcome) == with_messages(files@, object@, list_trees(messages@)),
{
    let mut object = object;
    match messages_to_input(files, &messages) {
        Ok((input, instructions)) => {
            object.insert("input", Json::List(input));
            merge_instructions(&mut object, instructions);
            object.remove("messages");
            Ok(object)
        },
        Err(error) => Err(normalize_input_error_response(error)),
    }
}

fn complete(object: &mut JsonObject, default: Option<&str>)
    ensures
        final(object)@ == completed(old(object)@, opt_text(default)),
{
    proof {
        reveal(completed);
    }
    promote_instruction_items(object);
    object.insert("store", Json::Bool(false));
    object.insert("stream", Json::Bool(true));
    ensure_instructions(object, default);
    ensure_reasoning_encrypted_content(object);
    ensure_parallel_tool_calls(object);
    map_web_search_options_to_tool(object);
    sanitize_include_values(object);
    sanitize_tool_types(object);
    sanitize_upstream_payload(object);
}

fn messages_of(object: &JsonObject) -> (messages: Option<Vec<Json>>)
    ensures
        (match messages {
            Some(messages) => list_of(object@, "messages"@) == Some(list_trees(messages@)),
            None => list_of(object@, "messages"@) is None,
        }),
{
    match object.list_field("messages") {
        Some(messages) => Some(copy_list(messages)),
        None => None,
    }
}

/// Brings a request of the responses route into the form in which it is sent upstream.
/// A request that cannot be sent is left as it is.
pub fn normalize_responses_payload(
    aliases: &TextMap<String>,
    files: &FileTable,
    default: Option<&str>,
    payload: &mut Json,
) -> (outcome: Result<(), NormalizeError>)
    ensures
        (match responses_request(string_table(*aliases), files@, opt_text(default), old(payload)@) {
            Ok(request) => outcome is Ok && final(payload)@ == JsonTree::Object(request),
            Err(refusal) => outcome is Err && outcome->Err_0@ == refusal && final(payload)@ == old(
                payload,
            )@,
        }),
{
    let mut object = match open_payload(aliases, payload) {
        Ok((object, _)) => object,
        Err(error) => {
            return Err(error);
        },
    };
    if object.contains_key("input") {
        object = match normalize_input(files, object) {
            Ok(object) => object,
            Err(error) => {
                return Err(error);
            },
        };
        object.remove("messages");
    } else {
        match messages_of(&object) {
            Some(messages) => {
                object = match normalize_messages(files, object, messages) {
                    Ok(object) => object,
                    Err(error) => {
                        return Err(error);
                    },
                };
            },
            None => {
                let nothing: Vec<Json> = Vec::new();
                proof {
                    assert(list_trees(nothing@) =~= Seq::empty());
                }
                object.insert("input", Json::List(nothing));
            },
        }
    }
    complete(&mut object, default);
    *payload = Json::Object(object);
    Ok(())
}

/// Brings a request of the chat route into the form in which it is sent upstream.
/// A request that cannot be sent is left as it is.
pub fn normalize_chat_payload(
    aliases: &TextMap<String>,
    files: &FileTable,
    default: Option<&str>,
    payload: &mut Json,
) -> (outcome: Result<ClientStreamOptions, NormalizeError>)
    ensures
        (match chat_request(string_table(*aliases), files@, opt_text(default), old(payload)@) {
            Ok(request) => outcome is Ok && final(payload)@ == JsonTree::Object(request)
                && outcome->Ok_0.include_usage == wants_usage(old(payload)@->Object_0),
            Err(refusal) => outcome is Err && outcome->Err_0@ == refusal && final(payload)@ == old(
                payload,
            )@,
        }),
{
    let (mut object, options) = match open_payload(aliases, payload) {
        Ok((object, options)) => (object, options),
        Err(error) => {
            return Err(error);
        },
    };
    match messages_of(&object) {
        Some(messages) => {
            object = match normalize_messages(files, object, messages) {
                Ok(object) => object,
                Err(error) => {
                    return Err(error);
                },
            };
        },
        None => {
            if !object.contains_key("input") {
                return Err(
                    NormalizeError::Refused(
                        json_error(400, "chat/completions requires either messages or input"),
                    ),
                );
            }
            object = match normalize_input(files, object) {
                Ok(object) => object,
                Err(error) => {
                    return Err(error);
                },
            };
        },
    }
    complete(&mut object, default);
    *payload = Json::Object(object);
    Ok(options)
}

} // verus!
