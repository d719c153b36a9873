use vstd::prelude::*;

use crate::files::{FileGap, Files};
use crate::json::{field_of, list_of, no_fields, text_of, Fields, JsonTree};
use crate::normalization::content::{
    assistant_items, content_part, content_parts, each_content_part, each_input_item,
    each_message_items, each_resolved_part, input_item, instructs, item_fields, message_items,
    messages_input, resolved_part, tool_call_items, with_role_content,
};
use crate::normalization::fields::{
    aliased, allowed_field, clamped_reasoning, compat_reasoning, compat_text, compat_tier,
    compatible, converses, each_item_instructions, encrypted_reasoning, has_supported_model,
    includable, listed_input, promoted, supported_tool, with_default_instructions,
    with_encrypted_reasoning, with_function_choice, with_function_tools, with_instructions,
    with_parallel_tool_calls, with_supported_include, with_supported_tools, with_web_search_tool,
};
use crate::normalization::{
    chat_input, chat_request, completed, prepared, responses_input, responses_request, Refusal,
};
use crate::seqs::{flat, lemma_try_flat_failure, lemma_try_flat_holds, try_flat};
use crate::text::{joined, lemma_begins_not_blank, stands_at, text_or, trim};

verus! {

broadcast use vstd::seq_lib::group_filter_ensures;

/// Whether a payload of the responses route or of the chat route is sent upstream as this
/// request.
pub open spec fn sent_as(
    aliases: Map<Seq<char>, Seq<char>>,
    files: Files,
    default: Option<Seq<char>>,
    payload: JsonTree,
    request: Fields,
) -> bool {
    ||| responses_request(aliases, files, default, payload) == Ok::<Fields, Refusal>(request)
    ||| chat_request(aliases, files, default, payload) == Ok::<Fields, Refusal>(request)
}

/// What tells the names of fields apart.
pub(crate) proof fn lemma_field_names()
    ensures
        "model"@.len() == 5 && "model"@[0] == 'm',
        "input"@.len() == 5 && "input"@[0] == 'i',
        "store"@.len() == 5 && "store"@[0] == 's',
        "tools"@.len() == 5 && "tools"@[0] == 't',
        "text"@.len() == 4,
        "stream"@.len() == 6,
        "include"@.len() == 7,
        "messages"@.len() == 8,
        "reasoning"@.len() == 9 && "reasoning"@[0] == 'r',
        "functions"@.len() == 9 && "functions"@[0] == 'f',
        "max_tokens"@.len() == 10,
        "tool_choice"@.len() == 11,
        "instructions"@.len() == 12 && "instructions"@[0] == 'i',
        "service_tier"@.len() == 12 && "service_tier"@[0] == 's',
        "function_call"@.len() == 13,
        "stream_options"@.len() == 14,
        "response_format"@.len() == 15,
        "prompt_cache_key"@.len() == 16 && "prompt_cache_key"@[0] == 'p',
        "reasoning_effort"@.len() == 16 && "reasoning_effort"@[0] == 'r',
        "max_output_tokens"@.len() == 17,
        "web_search_options"@.len() == 18,
        "parallel_tool_calls"@.len() == 19,
        "previous_response_id"@.len() == 20,
        "max_completion_tokens"@.len() == 21,
{
    reveal_strlit("model");
    reveal_strlit("input");
    reveal_strlit("store");
    reveal_strlit("tools");
    reveal_strlit("text");
    reveal_strlit("stream");
    reveal_strlit("include");
    reveal_strlit("messages");
    reveal_strlit("reasoning");
    reveal_strlit("functions");
    reveal_strlit("max_tokens");
    reveal_strlit("tool_choice");
    reveal_strlit("instructions");
    reveal_strlit("service_tier");
    reveal_strlit("function_call");
    reveal_strlit("stream_options");
    reveal_strlit("response_format");
    reveal_strlit("prompt_cache_key");
    reveal_strlit("reasoning_effort");
    reveal_strlit("max_output_tokens");
    reveal_strlit("web_search_options");
    reveal_strlit("parallel_tool_calls");
    reveal_strlit("previous_response_id");
    reveal_strlit("max_completion_tokens");
}

/// Whether a field is none that completing a request touches.
pub(crate) open spec fn left_alone(key: Seq<char>) -> bool {
    &&& key != "input"@
    &&& key != "store"@
    &&& key != "stream"@
    &&& key != "instructions"@
    &&& key != "include"@
    &&& key != "parallel_tool_calls"@
    &&& key != "tools"@
    &&& key != "web_search_options"@
}

pub(crate) proof fn lemma_completed_keeps(
    fields: Fields,
    default: Option<Seq<char>>,
    key: Seq<char>,
)
    requires
        allowed_field(key),
        left_alone(key),
    ensures
        field_of(completed(fields, default), key) == field_of(fields, key),
{
    reveal(completed);
    let streamed = promoted(fields).insert("store"@, JsonTree::Bool(false)).insert(
        "stream"@,
        JsonTree::Bool(true),
    );
    assert(field_of(streamed, key) == field_of(fields, key));
    let reasoned = with_parallel_tool_calls(
        with_encrypted_reasoning(with_default_instructions(streamed, default)),
    );
    assert(field_of(reasoned, key) == field_of(fields, key));
    let searched = with_web_search_tool(reasoned);
    assert(field_of(searched, key) == field_of(fields, key));
    let supported = with_supported_tools(with_supported_include(searched));
    assert(field_of(supported, key) == field_of(fields, key));
}

proof fn lemma_completed_store(fields: Fields, default: Option<Seq<char>>)
    ensures
        field_of(completed(fields, default), "store"@) == Some(JsonTree::Bool(false)),
        field_of(completed(fields, default), "stream"@) == Some(JsonTree::Bool(true)),
{
    reveal(completed);
    lemma_field_names();
}

pub(crate) proof fn lemma_completed_parallel(fields: Fields, default: Option<Seq<char>>)
    ensures
        field_of(completed(fields, default), "parallel_tool_calls"@) == (match field_of(
            fields,
            "parallel_tool_calls"@,
        ) {
            Some(own) => Some(own),
            None => Some(JsonTree::Bool(true)),
        }),
{
    reveal(completed);
    lemma_field_names();
}

pub(crate) proof fn lemma_completed_instructions(fields: Fields, default: Option<Seq<char>>)
    ensures
        text_of(completed(fields, default), "instructions"@) == text_of(
            with_default_instructions(promoted(fields), default),
            "instructions"@,
        ),
        text_of(completed(fields, default), "instructions"@) is Some,
{
    reveal(completed);
    lemma_field_names();
    reveal_strlit("");
}

proof fn lemma_completed_wanted(fields: Fields, default: Option<Seq<char>>)
    ensures
        ({
            let wanted = list_of(completed(fields, default), "include"@);
            &&& wanted is Some
            &&& wanted->0.contains(encrypted_reasoning())
            &&& forall|i: int| 0 <= i < wanted->0.len() ==> includable()(#[trigger] wanted->0[i])
        }),
{
    reveal(completed);
    lemma_field_names();
    let asked = with_encrypted_reasoning(
        with_default_instructions(
            promoted(fields).insert("store"@, JsonTree::Bool(false)).insert(
                "stream"@,
                JsonTree::Bool(true),
            ),
            default,
        ),
    );
    let before = list_of(asked, "include"@)->0;
    let wanted = list_of(completed(fields, default), "include"@)->0;
    assert(wanted == before.filter(includable()));
    assert(before.contains(encrypted_reasoning())) by {
        let old = list_of(fields, "include"@);
        if old is Some && !old->0.contains(encrypted_reasoning()) {
            assert(before.last() == encrypted_reasoning());
        } else if old is None {
            assert(before[0] == encrypted_reasoning());
        }
    }
    let at = choose|i: int| 0 <= i < before.len() && before[i] == encrypted_reasoning();
    assert(includable()(before[at]));
    assert(before.filter(includable()).contains(before[at]));
}

proof fn lemma_completed_tools(fields: Fields, default: Option<Seq<char>>)
    ensures
        (match list_of(completed(fields, default), "tools"@) {
            Some(tools) => tools.len() > 0 && forall|i: int|
                0 <= i < tools.len() ==> supported_tool()(#[trigger] tools[i]),
            None => true,
        }),
{
    reveal(completed);
    lemma_field_names();
}

pub(crate) proof fn lemma_completed_input(fields: Fields, default: Option<Seq<char>>)
    ensures
        (match list_of(fields, "input"@) {
            Some(items) => list_of(completed(fields, default), "input"@) == Some(
                items.filter(converses()),
            ),
            None => field_of(completed(fields, default), "input"@) == field_of(fields, "input"@),
        }),
{
    reveal(completed);
    lemma_field_names();
}

/// Whether a field is none that the input of a request touches.
pub(crate) open spec fn beside_input(key: Seq<char>) -> bool {
    key != "input"@ && key != "messages"@ && key != "instructions"@
}

/// Instructions that are added stand behind those that a request has.
proof fn lemma_with_instructions(fields: Fields, instructions: Seq<char>, own: Seq<char>)
    requires
        trim(own).len() > 0,
        text_of(fields, "instructions"@) is Some,
        stands_at(text_of(fields, "instructions"@)->0, own, 0),
    ensures
        text_of(with_instructions(fields, instructions), "instructions"@) is Some,
        stands_at(
            text_of(with_instructions(fields, instructions), "instructions"@)->0,
            own,
            0,
        ),
{
    let before = text_of(fields, "instructions"@)->0;
    let after = text_of(with_instructions(fields, instructions), "instructions"@)->0;
    lemma_begins_not_blank(before, own);
    if trim(instructions).len() > 0 {
        assert(after == before + "\n\n"@ + instructions);
        assert(after.subrange(0, own.len() as int) =~= before.subrange(0, own.len() as int));
    }
}

/// What a request is before it is completed, and what of the payload it keeps.
pub(crate) proof fn lemma_sent(
    aliases: Map<Seq<char>, Seq<char>>,
    files: Files,
    default: Option<Seq<char>>,
    payload: JsonTree,
    request: Fields,
) -> (fields: Fields)
    requires
        sent_as(aliases, files, default, payload, request),
    ensures
        payload is Object,
        has_supported_model(aliased(aliases, payload->Object_0)),
        request == completed(fields, default),
        responses_input(files, prepared(aliases, payload->Object_0)) == Ok::<Fields, Refusal>(
            fields,
        ) || chat_input(files, prepared(aliases, payload->Object_0)) == Ok::<Fields, Refusal>(
            fields,
        ),
        list_of(fields, "input"@) is Some,
        forall|key: Seq<char>|
            beside_input(key) ==> #[trigger] field_of(fields, key) == field_of(
                prepared(aliases, payload->Object_0),
                key,
            ),
        ({
            let own = text_of(prepared(aliases, payload->Object_0), "instructions"@);
            let now = text_of(fields, "instructions"@);
            own is Some && trim(own->0).len() > 0 ==> now is Some && stands_at(now->0, own->0, 0)
        }),
{
    lemma_field_names();
    let start = prepared(aliases, payload->Object_0);
    let fields = if responses_request(aliases, files, default, payload) == Ok::<Fields, Refusal>(
        request,
    ) {
        responses_input(files, start)->Ok_0
    } else {
        chat_input(files, start)->Ok_0
    };
    let own = text_of(start, "instructions"@);
    if own is Some && trim(own->0).len() > 0 {
        assert(own->0.subrange(0, own->0.len() as int) =~= own->0);
        if let Some(messages) = list_of(start, "messages"@) {
            if let Ok((items, instructions)) = messages_input(files, messages) {
                let listed = start.insert("input"@, JsonTree::List(items));
                assert(text_of(listed, "instructions"@) == own);
                lemma_with_instructions(listed, instructions, own->0);
            }
        }
    }
    fields
}

/// Whether a field is none that the words of the upstream touch.
spec fn beside_words(key: Seq<char>) -> bool {
    key == "instructions"@ || key == "parallel_tool_calls"@ || key == "prompt_cache_key"@ || key
        == "previous_response_id"@
}

proof fn lemma_prepared_keeps(
    aliases: Map<Seq<char>, Seq<char>>,
    fields: Fields,
    key: Seq<char>,
)
    requires
        beside_words(key),
    ensures
        field_of(prepared(aliases, fields), key) == field_of(fields, key),
{
    reveal(prepared);
    lemma_field_names();
}

proof fn lemma_clamped(reasoning: JsonTree)
    ensures
        clamped_reasoning(reasoning).text_field("effort"@) != Some("minimal"@),
{
    reveal_strlit("minimal");
    reveal_strlit("low");
    assert("minimal"@.len() != "low"@.len());
}

pub(crate) proof fn lemma_compatible(fields: Fields)
    ensures
        field_of(compatible(fields), "model"@) == field_of(fields, "model"@),
        field_of(compatible(fields), "service_tier"@) == compat_tier(fields),
        field_of(compatible(fields), "reasoning"@) == compat_reasoning(fields),
        field_of(compatible(fields), "text"@) == compat_text(fields),
        (match compat_reasoning(fields) {
            Some(reasoning) => reasoning.text_field("effort"@) != Some("minimal"@),
            None => true,
        }),
{
    lemma_field_names();
    if let Some(reasoning) = field_of(fields, "reasoning"@) {
        lemma_clamped(reasoning);
    }
    if let Some(effort) = text_of(fields, "reasoning_effort"@) {
        lemma_clamped(JsonTree::Object(no_fields().insert("effort"@, JsonTree::Text(effort))));
    }
}

/// A request goes upstream as a stream, and nothing of it is stored there.
pub proof fn law_streams_without_storing(
    aliases: Map<Seq<char>, Seq<char>>,
    files: Files,
    default: Option<Seq<char>>,
    payload: JsonTree,
    request: Fields,
)
    requires
        sent_as(aliases, files, default, payload, request),
    ensures
        field_of(request, "store"@) == Some(JsonTree::Bool(false)),
        field_of(request, "stream"@) == Some(JsonTree::Bool(true)),
{
    let fields = lemma_sent(aliases, files, default, payload, request);
    lemma_completed_store(fields, default);
}

/// A request goes upstream with no field but those that the upstream takes.
pub proof fn law_only_allowed_fields(
    aliases: Map<Seq<char>, Seq<char>>,
    files: Files,
    default: Option<Seq<char>>,
    payload: JsonTree,
    request: Fields,
    key: Seq<char>,
)
    requires
        sent_as(aliases, files, default, payload, request),
        request.dom().contains(key),
    ensures
        allowed_field(key),
{
    reveal(completed);
}

/// A request always asks for the encrypted reasoning, and for nothing that the upstream refuses.
pub proof fn law_asks_for_encrypted_reasoning(
    aliases: Map<Seq<char>, Seq<char>>,
    files: Files,
    default: Option<Seq<char>>,
    payload: JsonTree,
    request: Fields,
)
    requires
        sent_as(aliases, files, default, payload, request),
    ensures
        ({
            let wanted = list_of(request, "include"@);
            &&& wanted is Some
            &&& wanted->0.contains(encrypted_reasoning())
            &&& forall|i: int| 0 <= i < wanted->0.len() ==> includable()(#[trigger] wanted->0[i])
        }),
{
    let fields = lemma_sent(aliases, files, default, payload, request);
    lemma_completed_wanted(fields, default);
}

/// A request goes upstream for a model on offer alone: the one that the payload names, or the
/// one that its name is an alias for.
pub proof fn law_model_is_on_offer(
    aliases: Map<Seq<char>, Seq<char>>,
    files: Files,
    default: Option<Seq<char>>,
    payload: JsonTree,
    request: Fields,
)
    requires
        sent_as(aliases, files, default, payload, request),
    ensures
        has_supported_model(request),
        text_of(request, "model"@) == text_of(aliased(aliases, payload->Object_0), "model"@),
{
    reveal(prepared);
    let fields = lemma_sent(aliases, files, default, payload, request);
    lemma_field_names();
    lemma_completed_keeps(fields, default, "model"@);
    assert(beside_input("model"@));
}

/// A request always has instructions, if only empty ones.
pub proof fn law_has_instructions(
    aliases: Map<Seq<char>, Seq<char>>,
    files: Files,
    default: Option<Seq<char>>,
    payload: JsonTree,
    request: Fields,
)
    requires
        sent_as(aliases, files, default, payload, request),
    ensures
        text_of(request, "instructions"@) is Some,
{
    let fields = lemma_sent(aliases, files, default, payload, request);
    lemma_completed_instructions(fields, default);
}

/// The instructions of the caller are kept, in front of any others.
pub proof fn law_own_instructions_come_first(
    aliases: Map<Seq<char>, Seq<char>>,
    files: Files,
    default: Option<Seq<char>>,
    payload: JsonTree,
    request: Fields,
)
    requires
        sent_as(aliases, files, default, payload, request),
        text_of(payload->Object_0, "instructions"@) is Some,
        trim(text_of(payload->Object_0, "instructions"@)->0).len() > 0,
    ensures
        text_of(request, "instructions"@) is Some,
        stands_at(
            text_of(request, "instructions"@)->0,
            text_of(payload->Object_0, "instructions"@)->0,
            0,
        ),
{
    let fields = lemma_sent(aliases, files, default, payload, request);
    lemma_completed_instructions(fields, default);
    lemma_prepared_keeps(aliases, payload->Object_0, "instructions"@);
    let own = text_of(payload->Object_0, "instructions"@)->0;
    let items = list_of(fields, "input"@)->0;
    let kept = fields.insert("input"@, JsonTree::List(items.filter(converses())));
    assert(text_of(kept, "instructions"@) == text_of(fields, "instructions"@)) by {
        lemma_field_names();
    }
    let found = joined(flat(items, each_item_instructions()), "\n\n"@);
    lemma_with_instructions(kept, found, own);
    lemma_begins_not_blank(text_of(promoted(fields), "instructions"@)->0, own);
}

/// Parallel tool calls are allowed, unless the caller says otherwise.
pub proof fn law_parallel_tool_calls(
    aliases: Map<Seq<char>, Seq<char>>,
    files: Files,
    default: Option<Seq<char>>,
    payload: JsonTree,
    request: Fields,
)
    requires
        sent_as(aliases, files, default, payload, request),
    ensures
        field_of(request, "parallel_tool_calls"@) == (match field_of(
            payload->Object_0,
            "parallel_tool_calls"@,
        ) {
            Some(own) => Some(own),
            None => Some(JsonTree::Bool(true)),
        }),
{
    let fields = lemma_sent(aliases, files, default, payload, request);
    lemma_completed_parallel(fields, default);
    lemma_prepared_keeps(aliases, payload->Object_0, "parallel_tool_calls"@);
    lemma_field_names();
    assert(beside_input("parallel_tool_calls"@));
}

/// A list of tools that goes upstream is not empty, and has no tool in it that the upstream refuses.
pub proof fn law_tools_are_supported(
    aliases: Map<Seq<char>, Seq<char>>,
    files: Files,
    default: Option<Seq<char>>,
    payload: JsonTree,
    request: Fields,
)
    requires
        sent_as(aliases, files, default, payload, request),
    ensures
        (match list_of(request, "tools"@) {
            Some(tools) => tools.len() > 0 && forall|i: int|
                0 <= i < tools.len() ==> supported_tool()(#[trigger] tools[i]),
            None => true,
        }),
{
    let fields = lemma_sent(aliases, files, default, payload, request);
    lemma_completed_tools(fields, default);
}

/// The input goes upstream as a list, and no item of it gives instructions.
pub proof fn law_input_converses(
    aliases: Map<Seq<char>, Seq<char>>,
    files: Files,
    default: Option<Seq<char>>,
    payload: JsonTree,
    request: Fields,
)
    requires
        sent_as(aliases, files, default, payload, request),
    ensures
        ({
            let items = list_of(request, "input"@);
            &&& items is Some
            &&& forall|i: int|
                0 <= i < items->0.len() ==> !instructs((#[trigger] items->0[i]).text_field("role"@))
        }),
{
    let fields = lemma_sent(aliases, files, default, payload, request);
    lemma_completed_input(fields, default);
    let items = list_of(request, "input"@)->0;
    assert forall|i: int| 0 <= i < items.len() implies !instructs(
        (#[trigger] items[i]).text_field("role"@),
    ) by {
        assert(converses()(items[i]));
    }
}

/// A tier, an effort of reasoning or a text format that a request names goes upstream only where
/// the upstream takes it: no tier but `priority`, no `minimal` effort, no type of format but `text`.
pub proof fn law_values_are_supported(
    aliases: Map<Seq<char>, Seq<char>>,
    files: Files,
    default: Option<Seq<char>>,
    payload: JsonTree,
    request: Fields,
)
    requires
        sent_as(aliases, files, default, payload, request),
    ensures
        text_of(request, "service_tier"@) is None || text_of(request, "service_tier"@) == Some(
            "priority"@,
        ),
        (match field_of(request, "reasoning"@) {
            Some(reasoning) => reasoning.text_field("effort"@) != Some("minimal"@),
            None => true,
        }),
        (match field_of(request, "text"@) {
            Some(text) => match text.field("format"@) {
                Some(format) => format.text_field("type"@) is None || format.text_field("type"@)
                    == Some("text"@),
                None => true,
            },
            None => true,
        }),
{
    reveal(prepared);
    let fields = lemma_sent(aliases, files, default, payload, request);
    lemma_field_names();
    lemma_completed_keeps(fields, default, "service_tier"@);
    lemma_completed_keeps(fields, default, "reasoning"@);
    lemma_completed_keeps(fields, default, "text"@);
    assert(beside_input("service_tier"@) && beside_input("reasoning"@) && beside_input("text"@));
    let tools = with_function_choice(
        with_function_tools(aliased(aliases, payload->Object_0)),
    );
    lemma_compatible(tools);
}

/// A key for the prompt cache and the id of an earlier response go upstream as they came.
pub proof fn law_hints_pass_through(
    aliases: Map<Seq<char>, Seq<char>>,
    files: Files,
    default: Option<Seq<char>>,
    payload: JsonTree,
    request: Fields,
)
    requires
        sent_as(aliases, files, default, payload, request),
    ensures
        field_of(request, "prompt_cache_key"@) == field_of(payload->Object_0, "prompt_cache_key"@),
        field_of(request, "previous_response_id"@) == field_of(
            payload->Object_0,
            "previous_response_id"@,
        ),
{
    let fields = lemma_sent(aliases, files, default, payload, request);
    lemma_field_names();
    lemma_completed_keeps(fields, default, "prompt_cache_key"@);
    lemma_completed_keeps(fields, default, "previous_response_id"@);
    lemma_prepared_keeps(aliases, payload->Object_0, "prompt_cache_key"@);
    lemma_prepared_keeps(aliases, payload->Object_0, "previous_response_id"@);
    assert(beside_input("prompt_cache_key"@) && beside_input("previous_response_id"@));
}

/// Whether a part of a message names a stored file by its id.
pub open spec fn names_file(part: JsonTree) -> bool {
    let kind = part.text_field("type"@);
    (kind == Some("input_file"@) || kind == Some("input_image"@)) && part.text_field(
        "file_id"@,
    ) is Some
}

/// Whether an input item has no part that names a stored file by its id.
pub open spec fn names_no_file() -> spec_fn(JsonTree) -> bool {
    |item: JsonTree|
        match item.list_field("content"@) {
            Some(parts) => forall|i: int|
                0 <= i < parts.len() ==> !names_file(#[trigger] parts[i]),
            None => true,
        }
}

spec fn is_no_file_name() -> spec_fn(JsonTree) -> bool {
    |part: JsonTree| !names_file(part)
}

pub(crate) proof fn lemma_part_names()
    ensures
        "type"@.len() == 4,
        "text"@.len() == 4,
        "detail"@.len() == 6,
        "file_id"@.len() == 7 && "file_id"@[0] == 'f',
        "refusal"@.len() == 7 && "refusal"@[0] == 'r',
        "file_url"@.len() == 8,
        "filename"@.len() == 8,
        "image_url"@.len() == 9,
        "file_data"@.len() == 9,
{
    reveal_strlit("type");
    reveal_strlit("text");
    reveal_strlit("detail");
    reveal_strlit("file_id");
    reveal_strlit("refusal");
    reveal_strlit("file_url");
    reveal_strlit("filename");
    reveal_strlit("image_url");
    reveal_strlit("file_data");
}

proof fn lemma_content_part(files: Files, part: JsonTree, assistant: bool, k: int)
    requires
        content_part(files, part, assistant) is Ok,
        0 <= k < content_part(files, part, assistant)->Ok_0.len(),
    ensures
        !names_file(content_part(files, part, assistant)->Ok_0[k]),
{
    lemma_part_names();
}

proof fn lemma_resolved_part(files: Files, part: JsonTree, k: int)
    requires
        resolved_part(files, part) is Ok,
        0 <= k < resolved_part(files, part)->Ok_0.len(),
    ensures
        !names_file(resolved_part(files, part)->Ok_0[k]),
{
    lemma_part_names();
}

proof fn lemma_content_parts(files: Files, content: Option<JsonTree>, assistant: bool, k: int)
    requires
        content_parts(files, content, assistant) is Ok,
        0 <= k < content_parts(files, content, assistant)->Ok_0.len(),
    ensures
        !names_file(content_parts(files, content, assistant)->Ok_0[k]),
{
    lemma_part_names();
    if let Some(JsonTree::List(parts)) = content {
        let give = each_content_part(files, assistant);
        let holds = is_no_file_name();
        assert forall|part: JsonTree, k: int|
            (#[trigger] give(part)) is Ok && 0 <= k < give(part)->Ok_0.len() implies holds(
            #[trigger] give(part)->Ok_0[k],
        ) by {
            lemma_content_part(files, part, assistant, k);
        }
        if try_flat(parts, give) is Ok {
            lemma_try_flat_holds(parts, give, holds);
            let out = try_flat(parts, give)->Ok_0;
            if out.len() > 0 {
                assert(holds(out[k]));
            }
        }
    }
}

proof fn lemma_input_item(files: Files, item: JsonTree, k: int)
    requires
        input_item(files, item) is Ok,
        0 <= k < input_item(files, item)->Ok_0.len(),
    ensures
        names_no_file()(input_item(files, item)->Ok_0[k]),
{
    let fields = with_role_content(files, item_fields(item))->Ok_0;
    if let Some(JsonTree::List(parts)) = field_of(fields, "content"@) {
        let give = each_resolved_part(files);
        let holds = is_no_file_name();
        assert forall|part: JsonTree, k: int|
            (#[trigger] give(part)) is Ok && 0 <= k < give(part)->Ok_0.len() implies holds(
            #[trigger] give(part)->Ok_0[k],
        ) by {
            lemma_resolved_part(files, part, k);
        }
        lemma_try_flat_holds(parts, give, holds);
        let out = try_flat(parts, give)->Ok_0;
        assert forall|i: int| 0 <= i < out.len() implies !names_file(#[trigger] out[i]) by {
            assert(holds(out[i]));
        }
    }
}

proof fn lemma_message_items(files: Files, message_tree: JsonTree, k: int)
    requires
        message_items(files, message_tree) is Ok,
        0 <= k < message_items(files, message_tree)->Ok_0.len(),
    ensures
        names_no_file()(message_items(files, message_tree)->Ok_0[k]),
{
    lemma_part_names();
    reveal_strlit("content");
    reveal_strlit("role");
    reveal_strlit("name");
    reveal_strlit("arguments");
    reveal_strlit("call_id");
    reveal_strlit("output");
    assert("content"@[1] != "call_id"@[1]);
    let content = message_tree.field("content"@);
    assert forall|assistant: bool, k: int|
        (#[trigger] content_parts(files, content, assistant)) is Ok && 0 <= k < content_parts(
            files,
            content,
            assistant,
        )->Ok_0.len() implies !names_file(
        #[trigger] content_parts(files, content, assistant)->Ok_0[k],
    ) by {
        lemma_content_parts(files, content, assistant, k);
    }
    let item = message_items(files, message_tree)->Ok_0[k];
    let role = text_or(message_tree.text_field("role"@), ""@);
    if role == "assistant"@ && role != "user"@ {
        let said = assistant_items(files, message_tree)->Ok_0;
        if k >= said.len() {
            let calls = tool_call_items(message_tree);
            assert(item == calls[k - said.len()]);
            assert(item.field("content"@) is None);
        } else {
            assert(item == said[k]);
        }
    }
}

/// No file or image among the input goes upstream as the id of a stored file, which would mean
/// nothing there.
pub proof fn law_files_go_in_place_of_their_ids(
    aliases: Map<Seq<char>, Seq<char>>,
    files: Files,
    default: Option<Seq<char>>,
    payload: JsonTree,
    request: Fields,
)
    requires
        sent_as(aliases, files, default, payload, request),
    ensures
        ({
            let items = list_of(request, "input"@);
            &&& items is Some
            &&& forall|i: int| 0 <= i < items->0.len() ==> names_no_file()(#[trigger] items->0[i])
        }),
{
    let fields = lemma_sent(aliases, files, default, payload, request);
    lemma_completed_input(fields, default);
    lemma_sent_items(files, prepared(aliases, payload->Object_0), fields);
    let items = list_of(fields, "input"@)->0;
    let sent = list_of(request, "input"@)->0;
    assert forall|i: int| 0 <= i < sent.len() implies names_no_file()(#[trigger] sent[i]) by {
        lemma_filter_from(items, converses(), i);
        let at = choose|j: int| 0 <= j < items.len() && items[j] == sent[i];
        assert(names_no_file()(items[at]));
    }
}

pub(crate) proof fn lemma_filter_from(
    items: Seq<JsonTree>,
    pred: spec_fn(JsonTree) -> bool,
    i: int,
)
    requires
        0 <= i < items.filter(pred).len(),
    ensures
        exists|j: int| 0 <= j < items.len() && items[j] == items.filter(pred)[i],
    decreases items.len(),
{
    reveal(Seq::filter);
    if items.len() > 0 {
        let fewer = items.drop_last();
        if i < fewer.filter(pred).len() {
            lemma_filter_from(fewer, pred, i);
            let j = choose|j: int| 0 <= j < fewer.len() && fewer[j] == fewer.filter(pred)[i];
            assert(items[j] == items.filter(pred)[i]);
        } else {
            assert(items[items.len() - 1] == items.filter(pred)[i]);
        }
    }
}

proof fn lemma_sent_items(files: Files, start: Fields, fields: Fields)
    requires
        responses_input(files, start) == Ok::<Fields, Refusal>(fields) || chat_input(files, start)
            == Ok::<Fields, Refusal>(fields),
    ensures
        list_of(fields, "input"@) is Some,
        forall|i: int|
            0 <= i < list_of(fields, "input"@)->0.len() ==> names_no_file()(
                #[trigger] list_of(fields, "input"@)->0[i],
            ),
{
    lemma_field_names();
    let holds = names_no_file();
    let by_item = each_input_item(files);
    let by_message = each_message_items(files);
    assert forall|item: JsonTree, k: int|
        (#[trigger] by_item(item)) is Ok && 0 <= k < by_item(item)->Ok_0.len() implies holds(
        #[trigger] by_item(item)->Ok_0[k],
    ) by {
        lemma_input_item(files, item, k);
    }
    assert forall|item: JsonTree, k: int|
        (#[trigger] by_message(item)) is Ok && 0 <= k < by_message(item)->Ok_0.len() implies holds(
        #[trigger] by_message(item)->Ok_0[k],
    ) by {
        lemma_message_items(files, item, k);
    }
    let listed = listed_input(field_of(start, "input"@))->List_0;
    if try_flat(listed, by_item) is Ok {
        lemma_try_flat_holds(listed, by_item, holds);
    }
    if let Some(messages) = list_of(start, "messages"@) {
        if try_flat(messages, by_message) is Ok {
            lemma_try_flat_holds(messages, by_message, holds);
        }
    }
}

/// Whether a gap names no file that has been looked up.
spec fn is_new_gap(files: Files) -> spec_fn(FileGap) -> bool {
    |gap: FileGap|
        match gap {
            FileGap::Needed(id) => !files.dom().contains(id),
            FileGap::Unavailable => true,
        }
}

proof fn lemma_content_gap(files: Files, content: Option<JsonTree>, assistant: bool)
    ensures
        content_parts(files, content, assistant) is Err ==> is_new_gap(files)(
            content_parts(files, content, assistant)->Err_0,
        ),
{
    if let Some(JsonTree::List(parts)) = content {
        lemma_try_flat_failure(parts, each_content_part(files, assistant), is_new_gap(files));
    }
}

proof fn lemma_item_gap(files: Files, item: JsonTree)
    ensures
        input_item(files, item) is Err ==> is_new_gap(files)(input_item(files, item)->Err_0),
{
    let fields = item_fields(item);
    if let Some(role) = text_of(fields, "role"@) {
        lemma_content_gap(files, field_of(fields, "content"@), role == "assistant"@);
    }
    if let Ok(fields) = with_role_content(files, fields) {
        if let Some(JsonTree::List(parts)) = field_of(fields, "content"@) {
            lemma_try_flat_failure(parts, each_resolved_part(files), is_new_gap(files));
        }
    }
}

proof fn lemma_message_gap(files: Files, message_tree: JsonTree)
    ensures
        message_items(files, message_tree) is Err ==> is_new_gap(files)(
            message_items(files, message_tree)->Err_0,
        ),
{
    lemma_content_gap(files, message_tree.field("content"@), true);
    lemma_content_gap(files, message_tree.field("content"@), false);
}

/// A request never waits for a file that has been looked up: each look-up brings it further.
pub proof fn law_no_file_is_needed_twice(
    aliases: Map<Seq<char>, Seq<char>>,
    files: Files,
    default: Option<Seq<char>>,
    payload: JsonTree,
    id: Seq<char>,
)
    requires
        responses_request(aliases, files, default, payload) == Err::<Fields, Refusal>(
            Refusal::FileNeeded(id),
        ) || chat_request(aliases, files, default, payload) == Err::<Fields, Refusal>(
            Refusal::FileNeeded(id),
        ),
    ensures
        !files.dom().contains(id),
{
    lemma_field_names();
    let start = prepared(aliases, payload->Object_0);
    let new_gap = is_new_gap(files);
    let by_item = each_input_item(files);
    let by_message = each_message_items(files);
    assert forall|item: JsonTree| (#[trigger] by_item(item)) is Err implies new_gap(
        by_item(item)->Err_0,
    ) by {
        lemma_item_gap(files, item);
    }
    assert forall|item: JsonTree| (#[trigger] by_message(item)) is Err implies new_gap(
        by_message(item)->Err_0,
    ) by {
        lemma_message_gap(files, item);
    }
    let listed = listed_input(field_of(start, "input"@))->List_0;
    lemma_try_flat_failure(listed, by_item, new_gap);
    if let Some(messages) = list_of(start, "messages"@) {
        lemma_try_flat_failure(messages, by_message, new_gap);
    }
}

} // verus!
