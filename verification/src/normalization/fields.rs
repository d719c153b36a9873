use vstd::prelude::*;

use crate::config::{model_names, supported_models};
use crate::errors::{json_error, plain_error, ErrorAnswer, ErrorResponse};
use crate::json::{
    copy_list, field_of, group_json, keep_items, list_of, list_trees, no_fields, opt_json,
    set_field, text_of, Fields, Json, JsonObject, JsonTree,
};
use crate::normalization::content::{
    content_to_instruction_text, instruction_text, instructs, make_user_message, user_message,
    worded, wording,
};
use crate::seqs::flat;
use crate::state::ClientStreamOptions;
use crate::text::{
    concat, is_blank, join, joined, listed, opt_text, or_empty, same_text, text_or, texts, trim,
};
use crate::text_map::{string_table, TextMap};

verus! {

broadcast use group_json;

/// The request with the model that an alias stands for.
pub open spec fn aliased(aliases: Map<Seq<char>, Seq<char>>, fields: Fields) -> Fields {
    match text_of(fields, "model"@) {
        Some(model) => if aliases.dom().contains(model) {
            fields.insert("model"@, JsonTree::Text(aliases[model]))
        } else {
            fields
        },
        None => fields,
    }
}

/// Puts the model in the place of its alias.
pub fn apply_model_alias(aliases: &TextMap<String>, object: &mut JsonObject)
    ensures
        final(object)@ == aliased(string_table(*aliases), old(object)@),
{
    let canonical = match object.text_field("model") {
        Some(model) => match aliases.get(model) {
            Some(canonical) => canonical.clone(),
            None => {
                return;
            },
        },
        None => {
            return;
        },
    };
    object.insert("model", Json::Text(canonical));
}

/// Whether the request is for a model on offer.
pub open spec fn has_supported_model(fields: Fields) -> bool {
    model_names().contains(text_or(text_of(fields, "model"@), ""@))
}

/// The answer to a request for another model.
pub open spec fn unsupported_model_answer() -> ErrorAnswer {
    plain_error(400, "Unsupported model. Supported: "@ + joined(model_names(), ", "@))
}

/// Refuses a request for a model that is not on offer.
pub fn validate_supported_model(object: &JsonObject) -> (outcome: Result<(), ErrorResponse>)
    ensures
        outcome is Ok == has_supported_model(object@),
        outcome matches Err(error) ==> error@ == unsupported_model_answer(),
{
    let models = supported_models();
    if listed(&models, or_empty(object.text_field("model"))) {
        return Ok(());
    }
    let names = join(&models, ", ");
    let message = concat("Unsupported model. Supported: ", names.as_str());
    Err(json_error(400, message.as_str()))
}

/// Reads what the client asks of the stream it gets.
pub fn extract_client_stream_options(object: &JsonObject) -> (options: ClientStreamOptions)
    ensures
        options.include_usage == wants_usage(object@),
{
    let include_usage = match object.get("stream_options") {
        Some(options) => match options.bool_field("include_usage") {
            Some(value) => value,
            None => false,
        },
        None => false,
    };
    ClientStreamOptions { include_usage }
}

/// Whether the client asks for a chunk with the usage at the end of the stream.
pub open spec fn wants_usage(fields: Fields) -> bool {
    match field_of(fields, "stream_options"@) {
        Some(options) => options.bool_field("include_usage"@) == Some(true),
        None => false,
    }
}

/// The request with more instructions behind those that it has.
pub open spec fn with_instructions(fields: Fields, instructions: Seq<char>) -> Fields {
    if trim(instructions).len() == 0 {
        fields
    } else {
        let existing = text_or(text_of(fields, "instructions"@), ""@);
        fields.insert(
            "instructions"@,
            JsonTree::Text(
                if trim(existing).len() == 0 {
                    instructions
                } else {
                    existing + "\n\n"@ + instructions
                },
            ),
        )
    }
}

/// Adds instructions to those that a request has.
pub fn merge_instructions(object: &mut JsonObject, instructions: String)
    ensures
        final(object)@ == with_instructions(old(object)@, instructions@),
{
    if is_blank(instructions.as_str()) {
        return;
    }
    let existing = or_empty(object.text_field("instructions")).to_owned();
    if is_blank(existing.as_str()) {
        object.insert("instructions", Json::Text(instructions));
    } else {
        let start = concat(existing.as_str(), "\n\n");
        let all = concat(start.as_str(), instructions.as_str());
        object.insert("instructions", Json::Text(all));
    }
}

/// The instructions that an input item gives.
pub open spec fn item_instructions(item: JsonTree) -> Seq<Seq<char>> {
    match item.field("content"@) {
        Some(content) => if instructs(item.text_field("role"@)) && trim(
            instruction_text(content),
        ).len() > 0 {
            seq![instruction_text(content)]
        } else {
            Seq::empty()
        },
        None => Seq::empty(),
    }
}

/// `item_instructions` as a function of the item.
pub open spec fn each_item_instructions() -> spec_fn(JsonTree) -> Seq<Seq<char>> {
    |item: JsonTree| item_instructions(item)
}

/// Whether an input item takes part in the conversation, and gives no instructions.
pub open spec fn converses() -> spec_fn(JsonTree) -> bool {
    |item: JsonTree| !instructs(item.text_field("role"@))
}

/// The request with the instructing items of its input among its instructions instead.
pub open spec fn promoted(fields: Fields) -> Fields {
    match list_of(fields, "input"@) {
        Some(items) => with_instructions(
            fields.insert("input"@, JsonTree::List(items.filter(converses()))),
            joined(flat(items, each_item_instructions()), "\n\n"@),
        ),
        None => fields,
    }
}

fn item_instructs(item: &Json) -> (answer: bool)
    ensures
        answer == instructs(item@.text_field("role"@)),
{
    match item.text_field("role") {
        Some(role) => same_text(role, "system") || same_text(role, "developer"),
        None => false,
    }
}

fn item_converses(item: &Json) -> (answer: bool)
    ensures
        answer == converses()(item@),
{
    !item_instructs(item)
}

fn collect_instructions(items: &Vec<Json>) -> (found: Vec<String>)
    ensures
        texts(found@) == flat(list_trees(items@), each_item_instructions()),
{
    let ghost all = list_trees(items@);
    let ghost give = each_item_instructions();
    let mut found: Vec<String> = Vec::new();
    proof {
        assert(texts(found@) =~= flat(all.take(0), give));
    }
    for i in 0..items.len()
        invariant
            all == list_trees(items@),
            give == each_item_instructions(),
            texts(found@) == flat(all.take(i as int), give),
    {
        proof {
            assert(all.take(i + 1).drop_last() =~= all.take(i as int));
        }
        let ghost before = found@;
        let item = &items[i];
        if item_instructs(item) {
            if let Some(content) = item.get("content") {
                let text = content_to_instruction_text(content);
                if !is_blank(text.as_str()) {
                    found.push(text);
                }
            }
        }
        proof {
            assert(texts(found@) =~= texts(before) + item_instructions(item@));
        }
    }
    proof {
        assert(all.take(all.len() as int) =~= all);
    }
    found
}

/// Moves the instructing items of the input to the instructions of a request.
pub fn promote_instruction_items(object: &mut JsonObject)
    ensures
        final(object)@ == promoted(old(object)@),
{
    let (kept, found) = match object.list_field("input") {
        Some(items) => (
            keep_items(
                items,
                item_converses,
                Ghost(converses()),
            ),
            collect_instructions(items),
        ),
        None => {
            return;
        },
    };
    object.insert("input", Json::List(kept));
    let instructions = join(&found, "\n\n");
    merge_instructions(object, instructions);
}

/// Whether the upstream takes a field of this name.
pub open spec fn allowed_field(key: Seq<char>) -> bool {
    ||| key == "model"@
    ||| key == "input"@
    ||| key == "instructions"@
    ||| key == "tools"@
    ||| key == "tool_choice"@
    ||| key == "store"@
    ||| key == "include"@
    ||| key == "stream"@
    ||| key == "reasoning"@
    ||| key == "text"@
    ||| key == "parallel_tool_calls"@
    ||| key == "previous_response_id"@
    ||| key == "prompt_cache_key"@
    ||| key == "service_tier"@
}

/// Whether the upstream takes a field of this name. It refuses a request with any other.
pub fn is_allowed_upstream_field(key: &str) -> (allowed: bool)
    ensures
        allowed == allowed_field(key@),
{
    same_text(key, "model") || same_text(key, "input") || same_text(key, "instructions")
        || same_text(key, "tools") || same_text(key, "tool_choice") || same_text(key, "store")
        || same_text(key, "include") || same_text(key, "stream") || same_text(key, "reasoning")
        || same_text(key, "text") || same_text(key, "parallel_tool_calls")
        || same_text(key, "previous_response_id") || same_text(key, "prompt_cache_key")
        || same_text(key, "service_tier")
}

/// The request with the fields alone that the upstream takes.
pub open spec fn sanitized(fields: Fields) -> Fields {
    fields.restrict(Set::new(|key: Seq<char>| allowed_field(key)))
}

/// Takes away the fields that the upstream refuses.
pub fn sanitize_upstream_payload(object: &mut JsonObject)
    ensures
        final(object)@ == sanitized(old(object)@),
{
    object.retain_keys(
        is_allowed_upstream_field,
        Ghost(|key: Seq<char>| allowed_field(key)),
    );
}

/// The request with instructions: its own, or else the default, or else empty ones.
pub open spec fn with_default_instructions(fields: Fields, default: Option<Seq<char>>) -> Fields {
    if trim(text_or(text_of(fields, "instructions"@), ""@)).len() > 0 {
        fields
    } else if trim(text_or(default, ""@)).len() > 0 {
        fields.insert("instructions"@, JsonTree::Text(text_or(default, ""@)))
    } else {
        fields.insert("instructions"@, JsonTree::Text(""@))
    }
}

/// Gives a request without instructions the default ones, where there are any.
pub fn ensure_instructions(object: &mut JsonObject, default: Option<&str>)
    ensures
        final(object)@ == with_default_instructions(old(object)@, opt_text(default)),
{
    proof {
        lemma_nothing_is_blank();
    }
    if !is_blank(or_empty(object.text_field("instructions"))) {
        return;
    }
    let default = or_empty(default);
    if is_blank(default) {
        object.insert("instructions", Json::text(""));
    } else {
        object.insert("instructions", Json::text(default));
    }
}

proof fn lemma_nothing_is_blank()
    ensures
        ""@.len() == 0,
        trim(""@).len() == 0,
{
    reveal_strlit("");
    assert(trim(""@) =~= ""@);
}

/// The request with parallel tool calls, unless it says otherwise.
pub open spec fn with_parallel_tool_calls(fields: Fields) -> Fields {
    if fields.dom().contains("parallel_tool_calls"@) {
        fields
    } else {
        fields.insert("parallel_tool_calls"@, JsonTree::Bool(true))
    }
}

/// Allows parallel tool calls where a request does not speak of them.
pub fn ensure_parallel_tool_calls(object: &mut JsonObject)
    ensures
        final(object)@ == with_parallel_tool_calls(old(object)@),
{
    if !object.contains_key("parallel_tool_calls") {
        object.insert("parallel_tool_calls", Json::Bool(true));
    }
}

/// What asks the upstream for the encrypted reasoning.
pub open spec fn encrypted_reasoning() -> JsonTree {
    JsonTree::Text("reasoning.encrypted_content"@)
}

/// The request with the encrypted reasoning among what it asks for.
pub open spec fn with_encrypted_reasoning(fields: Fields) -> Fields {
    match list_of(fields, "include"@) {
        Some(wanted) => if wanted.contains(encrypted_reasoning()) {
            fields
        } else {
            fields.insert("include"@, JsonTree::List(wanted.push(encrypted_reasoning())))
        },
        None => fields.insert("include"@, JsonTree::List(seq![encrypted_reasoning()])),
    }
}

fn has_item(items: &Vec<Json>, text: &str) -> (found: bool)
    ensures
        found == list_trees(items@).contains(JsonTree::Text(text@)),
{
    let ghost all = list_trees(items@);
    for i in 0..items.len()
        invariant
            all == list_trees(items@),
            forall|k: int| 0 <= k < i ==> (#[trigger] all[k]) != JsonTree::Text(text@),
    {
        proof {
            assert(all[i as int] == items@[i as int]@);
        }
        if let Some(item) = items[i].as_text() {
            if same_text(item, text) {
                return true;
            }
        }
    }
    false
}

/// Asks for the encrypted reasoning.
pub fn ensure_reasoning_encrypted_content(object: &mut JsonObject)
    ensures
        final(object)@ == with_encrypted_reasoning(old(object)@),
{
    let mut wanted = match object.list_field("include") {
        Some(wanted) => {
            if has_item(wanted, "reasoning.encrypted_content") {
                return;
            }
            copy_list(wanted)
        },
        None => Vec::new(),
    };
    let ghost before = list_trees(wanted@);
    wanted.push(Json::text("reasoning.encrypted_content"));
    proof {
        assert(list_of(object@, "include"@) is None ==> list_trees(wanted@) =~= seq![
            encrypted_reasoning(),
        ]);
    }
    object.insert("include", Json::List(wanted));
}

/// The tier that the upstream takes: none but `priority`.
pub open spec fn compat_tier(fields: Fields) -> Option<JsonTree> {
    match field_of(fields, "service_tier"@) {
        Some(JsonTree::Text(tier)) => if tier == "priority"@ {
            Some(JsonTree::Text(tier))
        } else {
            None
        },
        other => other,
    }
}

/// The reasoning with an effort that the upstream takes: `low` in place of `minimal`.
pub open spec fn clamped_reasoning(reasoning: JsonTree) -> JsonTree {
    match reasoning {
        JsonTree::Object(fields) => if text_of(fields, "effort"@) == Some("minimal"@) {
            JsonTree::Object(fields.insert("effort"@, JsonTree::Text("low"@)))
        } else {
            reasoning
        },
        other => other,
    }
}

/// The reasoning that a request asks for, in this form or by its effort alone.
pub open spec fn compat_reasoning(fields: Fields) -> Option<JsonTree> {
    match field_of(fields, "reasoning"@) {
        Some(reasoning) => Some(clamped_reasoning(reasoning)),
        None => match text_of(fields, "reasoning_effort"@) {
            Some(effort) => Some(
                clamped_reasoning(
                    JsonTree::Object(no_fields().insert("effort"@, JsonTree::Text(effort))),
                ),
            ),
            None => None,
        },
    }
}

/// The effort of reasoning in its own field: left only beside a `reasoning` field.
pub open spec fn compat_effort(fields: Fields) -> Option<JsonTree> {
    if fields.dom().contains("reasoning"@) {
        field_of(fields, "reasoning_effort"@)
    } else {
        None
    }
}

/// A text format of plain text.
pub open spec fn plain_format() -> JsonTree {
    JsonTree::Object(
        no_fields().insert(
            "format"@,
            JsonTree::Object(no_fields().insert("type"@, JsonTree::Text("text"@))),
        ),
    )
}

/// The text settings that a request asks for, in this form or by its response format.
pub open spec fn asked_text(fields: Fields) -> Option<JsonTree> {
    match field_of(fields, "text"@) {
        Some(text) => Some(text),
        None => match field_of(fields, "response_format"@) {
            Some(format) => if format.text_field("type"@) == Some("text"@) {
                Some(plain_format())
            } else {
                None
            },
            None => None,
        },
    }
}

/// Text settings without a format but that of plain text.
pub open spec fn plain_text_fields(text: Fields) -> Fields {
    match field_of(text, "format"@) {
        Some(format) => match format.text_field("type"@) {
            Some(kind) => if kind == "text"@ {
                text
            } else {
                text.remove("format"@)
            },
            None => text,
        },
        None => text,
    }
}

/// The text settings that the upstream takes, left out where they are empty.
pub open spec fn compat_text(fields: Fields) -> Option<JsonTree> {
    match asked_text(fields) {
        Some(JsonTree::Object(text)) => if plain_text_fields(text).dom() =~= Set::empty() {
            None
        } else {
            Some(JsonTree::Object(plain_text_fields(text)))
        },
        other => other,
    }
}

/// The request in the words of the upstream.
pub open spec fn compatible(fields: Fields) -> Fields {
    let bare = fields.remove("max_tokens"@).remove("max_completion_tokens"@).remove(
        "max_output_tokens"@,
    ).remove("response_format"@);
    let tiered = set_field(bare, "service_tier"@, compat_tier(fields));
    let reasoned = set_field(
        set_field(tiered, "reasoning_effort"@, compat_effort(fields)),
        "reasoning"@,
        compat_reasoning(fields),
    );
    set_field(reasoned, "text"@, compat_text(fields))
}

fn make_tier(object: &JsonObject) -> (tier: Option<Json>)
    ensures
        opt_json(tier) == compat_tier(object@),
{
    match object.get("service_tier") {
        Some(Json::Text(tier)) => if same_text(tier.as_str(), "priority") {
            Some(Json::text(tier.as_str()))
        } else {
            None
        },
        Some(other) => Some(other.copy()),
        None => None,
    }
}

fn clamp_reasoning(reasoning: Json) -> (clamped: Json)
    ensures
        clamped@ == clamped_reasoning(reasoning@),
{
    match reasoning {
        Json::Object(object) => {
            let minimal = match object.text_field("effort") {
                Some(effort) => same_text(effort, "minimal"),
                None => false,
            };
            if minimal {
                Json::Object(object.with("effort", Json::text("low")))
            } else {
                Json::Object(object)
            }
        },
        other => other,
    }
}

fn make_reasoning(object: &JsonObject) -> (reasoning: Option<Json>)
    ensures
        opt_json(reasoning) == compat_reasoning(object@),
{
    match object.get("reasoning") {
        Some(reasoning) => Some(clamp_reasoning(reasoning.copy())),
        None => match object.text_field("reasoning_effort") {
            Some(effort) => Some(
                clamp_reasoning(
                    Json::Object(JsonObject::new().with("effort", Json::text(effort))),
                ),
            ),
            None => None,
        },
    }
}

fn make_effort(object: &JsonObject) -> (effort: Option<Json>)
    ensures
        opt_json(effort) == compat_effort(object@),
{
    if object.contains_key("reasoning") {
        match object.get("reasoning_effort") {
            Some(effort) => Some(effort.copy()),
            None => None,
        }
    } else {
        None
    }
}

fn make_asked_text(object: &JsonObject) -> (text: Option<Json>)
    ensures
        opt_json(text) == asked_text(object@),
{
    if let Some(text) = object.get("text") {
        return Some(text.copy());
    }
    let format = match object.get("response_format") {
        Some(format) => format,
        None => {
            return None;
        },
    };
    match format.text_field("type") {
        Some(kind) => if same_text(kind, "text") {
            let plain = JsonObject::new().with("type", Json::text("text"));
            Some(Json::Object(JsonObject::new().with("format", Json::Object(plain))))
        } else {
            None
        },
        None => None,
    }
}

fn drop_other_format(text: JsonObject) -> (plain: JsonObject)
    ensures
        plain@ == plain_text_fields(text@),
{
    let other = match text.get("format") {
        Some(format) => match format.text_field("type") {
            Some(kind) => !same_text(kind, "text"),
            None => false,
        },
        None => false,
    };
    let mut plain = text;
    if other {
        plain.remove("format");
    }
    plain
}

fn make_text(object: &JsonObject) -> (text: Option<Json>)
    ensures
        opt_json(text) == compat_text(object@),
{
    match make_asked_text(object) {
        Some(Json::Object(text)) => {
            let plain = drop_other_format(text);
            if plain.is_empty() {
                None
            } else {
                Some(Json::Object(plain))
            }
        },
        other => other,
    }
}

/// Puts a request in the words of the upstream.
///
/// The upstream takes no cap on tokens, no tier but `priority`, no `minimal` effort and no
/// format but plain text. A request that asks for them goes without.
pub fn map_openai_compat_fields(object: &mut JsonObject)
    ensures
        final(object)@ == compatible(old(object)@),
{
    let tier = make_tier(object);
    let effort = make_effort(object);
    let reasoning = make_reasoning(object);
    let text = make_text(object);
    object.remove("max_tokens");
    object.remove("max_completion_tokens");
    object.remove("max_output_tokens");
    object.remove("response_format");
    object.set("service_tier", tier);
    object.set("reasoning_effort", effort);
    object.set("reasoning", reasoning);
    object.set("text", text);
}

/// Whether the upstream takes a value of `include`.
pub open spec fn supported_include(value: Seq<char>) -> bool {
    ||| value == "reasoning.encrypted_content"@
    ||| value == "file_search_call.results"@
    ||| value == "web_search_call.results"@
    ||| value == "web_search_call.action.sources"@
    ||| value == "message.input_image.image_url"@
    ||| value == "computer_call_output.output.image_url"@
    ||| value == "code_interpreter_call.outputs"@
    ||| value == "message.output_text.logprobs"@
}

/// Whether an item of `include` is one that the upstream takes.
pub open spec fn includable() -> spec_fn(JsonTree) -> bool {
    |item: JsonTree|
        match item.as_text() {
            Some(value) => supported_include(value),
            None => false,
        }
}

/// The request with the values of `include` alone that the upstream takes.
pub open spec fn with_supported_include(fields: Fields) -> Fields {
    match list_of(fields, "include"@) {
        Some(wanted) => fields.insert("include"@, JsonTree::List(wanted.filter(includable()))),
        None => fields,
    }
}

fn is_supported_include(item: &Json) -> (supported: bool)
    ensures
        supported == includable()(item@),
{
    match item.as_text() {
        Some(value) => same_text(value, "reasoning.encrypted_content") || same_text(
            value,
            "file_search_call.results",
        ) || same_text(value, "web_search_call.results") || same_text(
            value,
            "web_search_call.action.sources",
        ) || same_text(value, "message.input_image.image_url") || same_text(
            value,
            "computer_call_output.output.image_url",
        ) || same_text(value, "code_interpreter_call.outputs") || same_text(
            value,
            "message.output_text.logprobs",
        ),
        None => false,
    }
}

/// Takes away the values of `include` that the upstream refuses.
pub fn sanitize_include_values(object: &mut JsonObject)
    ensures
        final(object)@ == with_supported_include(old(object)@),
{
    let kept = match object.list_field("include") {
        Some(wanted) => keep_items(
            wanted,
            is_supported_include,
            Ghost(includable()),
        ),
        None => {
            return;
        },
    };
    object.insert("include", Json::List(kept));
}

/// Whether a tool is of a type that the upstream takes.
pub open spec fn supported_tool() -> spec_fn(JsonTree) -> bool {
    |tool: JsonTree|
        {
            let kind = text_or(tool.text_field("type"@), ""@);
            kind == "function"@ || kind == "web_search"@ || kind == "image_generation"@
        }
}

/// The request with the tools alone that the upstream takes, and no empty list of tools.
pub open spec fn with_supported_tools(fields: Fields) -> Fields {
    match list_of(fields, "tools"@) {
        Some(tools) => if tools.filter(supported_tool()).len() == 0 {
            fields.remove("tools"@)
        } else {
            fields.insert("tools"@, JsonTree::List(tools.filter(supported_tool())))
        },
        None => fields,
    }
}

fn is_supported_tool(tool: &Json) -> (supported: bool)
    ensures
        supported == supported_tool()(tool@),
{
    let kind = or_empty(tool.text_field("type"));
    same_text(kind, "function") || same_text(kind, "web_search") || same_text(
        kind,
        "image_generation",
    )
}

/// Takes away the tools of a type that the upstream refuses.
pub fn sanitize_tool_types(object: &mut JsonObject)
    ensures
        final(object)@ == with_supported_tools(old(object)@),
{
    let kept = match object.list_field("tools") {
        Some(tools) => keep_items(
            tools,
            is_supported_tool,
            Ghost(supported_tool()),
        ),
        None => {
            return;
        },
    };
    if kept.len() == 0 {
        object.remove("tools");
    } else {
        object.insert("tools", Json::List(kept));
    }
}

/// Whether a tool searches the web.
pub open spec fn searches_web(tool: JsonTree) -> bool {
    tool.text_field("type"@) == Some("web_search"@)
}

/// The fields with one more that is copied from elsewhere, where it stands there.
pub open spec fn with_copied(fields: Fields, from: JsonTree, key: Seq<char>) -> Fields {
    match from.field(key) {
        Some(value) => fields.insert(key, value),
        None => fields,
    }
}

/// The web search tool that top-level options ask for.
pub open spec fn web_search_tool(options: JsonTree) -> JsonTree {
    JsonTree::Object(
        with_copied(
            with_copied(
                no_fields().insert("type"@, JsonTree::Text("web_search"@)),
                options,
                "search_context_size"@,
            ),
            options,
            "user_location"@,
        ),
    )
}

/// Whether the tools of a request search the web.
pub open spec fn has_web_search(fields: Fields) -> bool {
    match list_of(fields, "tools"@) {
        Some(tools) => exists|i: int| 0 <= i < tools.len() && searches_web(#[trigger] tools[i]),
        None => false,
    }
}

/// The request with a web search tool in place of top-level options for web search.
pub open spec fn with_web_search_tool(fields: Fields) -> Fields {
    let rest = fields.remove("web_search_options"@);
    match field_of(fields, "web_search_options"@) {
        Some(options) => if has_web_search(rest) {
            rest
        } else {
            match field_of(rest, "tools"@) {
                Some(JsonTree::List(tools)) => rest.insert(
                    "tools"@,
                    JsonTree::List(tools.push(web_search_tool(options))),
                ),
                Some(_) => rest,
                None => rest.insert("tools"@, JsonTree::List(seq![web_search_tool(options)])),
            }
        },
        None => fields,
    }
}

fn copy_field(object: JsonObject, from: &Json, key: &str) -> (out: JsonObject)
    ensures
        out@ == with_copied(object@, from@, key@),
{
    match from.get(key) {
        Some(value) => object.with(key, value.copy()),
        None => object,
    }
}

fn any_searches_web(object: &JsonObject) -> (found: bool)
    ensures
        found == has_web_search(object@),
{
    let tools = match object.list_field("tools") {
        Some(tools) => tools,
        None => {
            return false;
        },
    };
    let ghost all = list_trees(tools@);
    for i in 0..tools.len()
        invariant
            all == list_trees(tools@),
            list_of(object@, "tools"@) == Some(all),
            forall|k: int| 0 <= k < i ==> !searches_web(#[trigger] all[k]),
    {
        if let Some(kind) = tools[i].text_field("type") {
            if same_text(kind, "web_search") {
                proof {
                    let tools = list_of(object@, "tools"@)->0;
                    assert(searches_web(tools[i as int]));
                }
                return true;
            }
        }
        proof {
            assert(!searches_web(all[i as int]));
        }
    }
    false
}

/// Turns top-level options for web search, which the upstream refuses, into a tool.
pub fn map_web_search_options_to_tool(object: &mut JsonObject)
    ensures
        final(object)@ == with_web_search_tool(old(object)@),
{
    let options = match object.get("web_search_options") {
        Some(options) => options.copy(),
        None => {
            return;
        },
    };
    object.remove("web_search_options");
    if any_searches_web(object) {
        return;
    }
    let tool = JsonObject::new().with("type", Json::text("web_search"));
    let tool = copy_field(tool, &options, "search_context_size");
    let tool = Json::Object(copy_field(tool, &options, "user_location"));
    let mut tools = match object.get("tools") {
        Some(Json::List(tools)) => copy_list(tools),
        Some(_) => {
            return;
        },
        None => Vec::new(),
    };
    tools.push(tool);
    proof {
        assert(field_of(object@, "tools"@) is None ==> list_trees(tools@) =~= seq![tool@]);
    }
    object.insert("tools", Json::List(tools));
}

/// A function of the older form as a tool.
pub open spec fn function_tool(function: JsonTree) -> JsonTree {
    match function {
        JsonTree::Object(fields) => if fields.dom().contains("type"@) {
            function
        } else {
            JsonTree::Object(fields.insert("type"@, JsonTree::Text("function"@)))
        },
        other => other,
    }
}

/// A choice of function of the older form as a choice of tool.
pub open spec fn function_choice(choice: JsonTree) -> JsonTree {
    match choice {
        JsonTree::Object(fields) => match text_of(fields, "name"@) {
            Some(name) => JsonTree::Object(
                no_fields().insert("type"@, JsonTree::Text("function"@)).insert(
                    "name"@,
                    JsonTree::Text(name),
                ),
            ),
            None => JsonTree::Object(fields.remove("name"@)),
        },
        other => other,
    }
}

/// The request with tools in place of functions, where it has no tools.
pub open spec fn with_function_tools(fields: Fields) -> Fields {
    if fields.dom().contains("tools"@) {
        fields
    } else {
        match field_of(fields, "functions"@) {
            Some(JsonTree::List(functions)) => fields.remove("functions"@).insert(
                "tools"@,
                JsonTree::List(
                    functions.map_values(|function: JsonTree| function_tool(function)),
                ),
            ),
            _ => fields.remove("functions"@),
        }
    }
}

/// The request with a choice of tool in place of a choice of function, where it has none.
pub open spec fn with_function_choice(fields: Fields) -> Fields {
    if fields.dom().contains("tool_choice"@) {
        fields
    } else {
        match field_of(fields, "function_call"@) {
            Some(choice) => fields.remove("function_call"@).insert(
                "tool_choice"@,
                function_choice(choice),
            ),
            None => fields,
        }
    }
}

fn make_function_tool(function: &Json) -> (tool: Json)
    ensures
        tool@ == function_tool(function@),
{
    match function {
        Json::Object(object) => if object.contains_key("type") {
            function.copy()
        } else {
            Json::Object(object.copy().with("type", Json::text("function")))
        },
        other => other.copy(),
    }
}

fn make_function_tools(functions: &Vec<Json>) -> (tools: Vec<Json>)
    ensures
        list_trees(tools@) == list_trees(functions@).map_values(
            |function: JsonTree| function_tool(function),
        ),
{
    let ghost all = list_trees(functions@);
    let mut tools: Vec<Json> = Vec::new();
    for i in 0..functions.len()
        invariant
            all == list_trees(functions@),
            tools@.len() == i,
            forall|k: int|
                0 <= k < i ==> (#[trigger] list_trees(tools@)[k]) == function_tool(all[k]),
    {
        let ghost before = tools@;
        tools.push(make_function_tool(&functions[i]));
        proof {
            assert(list_trees(tools@) == list_trees(before).push(function_tool(all[i as int])));
        }
    }
    proof {
        assert(list_trees(tools@) =~= all.map_values(
            |function: JsonTree| function_tool(function),
        ));
    }
    tools
}

fn make_function_choice(choice: Json) -> (made: Json)
    ensures
        made@ == function_choice(choice@),
{
    match choice {
        Json::Object(object) => {
            let name = match object.text_field("name") {
                Some(name) => Some(name.to_owned()),
                None => None,
            };
            match name {
                Some(name) => Json::Object(
                    JsonObject::new().with("type", Json::text("function")).with(
                        "name",
                        Json::Text(name),
                    ),
                ),
                None => {
                    let mut object = object;
                    object.remove("name");
                    Json::Object(object)
                },
            }
        },
        other => other,
    }
}

/// Turns functions and a choice of function, the older form, into tools and a choice of tool.
pub fn map_legacy_chat_tool_fields(object: &mut JsonObject)
    ensures
        final(object)@ == with_function_choice(with_function_tools(old(object)@)),
{
    if !object.contains_key("tools") {
        let tools = match object.get("functions") {
            Some(Json::List(functions)) => Some(make_function_tools(functions)),
            _ => None,
        };
        object.remove("functions");
        if let Some(tools) = tools {
            object.insert("tools", Json::List(tools));
        }
    }
    proof {
        assert(object@ == with_function_tools(old(object)@));
    }
    if !object.contains_key("tool_choice") {
        let choice = match object.get("function_call") {
            Some(choice) => choice.copy(),
            None => {
                return;
            },
        };
        object.remove("function_call");
        object.insert("tool_choice", make_function_choice(choice));
    }
}

/// The input of a request as a list: a lone value is what the user says.
pub open spec fn listed_input(input: Option<JsonTree>) -> JsonTree {
    match input {
        None => JsonTree::List(Seq::empty()),
        Some(JsonTree::List(items)) => JsonTree::List(items),
        Some(other) => JsonTree::List(seq![user_message(worded(other))]),
    }
}

/// The request with its input as a list.
pub open spec fn with_listed_input(fields: Fields) -> Fields {
    fields.insert("input"@, listed_input(field_of(fields, "input"@)))
}

/// Makes the input of a request a list.
pub fn normalize_responses_input_shape(object: &mut JsonObject)
    ensures
        final(object)@ == with_listed_input(old(object)@),
{
    let mut items: Vec<Json> = Vec::new();
    match object.get("input") {
        None => {},
        Some(Json::List(_)) => {
            proof {
                assert(object@.insert("input"@, object@["input"@]) =~= object@);
            }
            return;
        },
        Some(other) => {
            let text = wording(other);
            items.push(make_user_message(text.as_str()));
        },
    }
    proof {
        match field_of(object@, "input"@) {
            None => {
                assert(list_trees(items@) =~= Seq::empty());
            },
            Some(other) => {
                assert(list_trees(items@) =~= seq![user_message(worded(other))]);
            },
        }
    }
    object.insert("input", Json::List(items));
}

} // verus!
