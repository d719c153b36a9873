use vstd::prelude::*;

use crate::config::model_names;
use crate::files::{FileGap, Files};
use crate::json::{field_of, list_of, text_of, Fields, JsonTree};
use crate::normalization::content::{
    assistant_items, content_part, content_parts, each_content_part, each_input_item,
    each_message_items, each_resolved_part, has_content, input_item, item_fields, message,
    message_items, resolved_part, role_content, text_part, text_type, tool_call_items,
    with_role_content, worded,
};
use crate::normalization::fields::{
    aliased, allowed_field, compat_reasoning, compat_text, compat_tier, compatible, converses,
    each_item_instructions, encrypted_reasoning, includable, listed_input, promoted, sanitized,
    supported_tool, with_default_instructions, with_function_choice, with_function_tools,
};
use crate::normalization::laws::{
    beside_input, law_asks_for_encrypted_reasoning, law_input_converses, law_model_is_on_offer,
    law_only_allowed_fields, law_streams_without_storing, law_tools_are_supported,
    lemma_compatible, lemma_completed_input, lemma_completed_instructions,
    lemma_completed_keeps, lemma_completed_parallel, lemma_field_names, lemma_filter_from,
    lemma_part_names, lemma_sent, sent_as,
};
use crate::normalization::{
    chat_input, chat_request, completed, prepared, responses_input, responses_request, with_input,
    Refusal,
};
use crate::seqs::{
    flat, lemma_filter_same, lemma_flat_nothing, lemma_try_flat_holds, lemma_try_flat_same,
    try_flat,
};
use crate::text::{joined, text_or, trim};

verus! {

/// What tells the names and types of items and parts apart.
pub(crate) proof fn lemma_item_words()
    ensures
        ""@.len() == 0,
        "type"@.len() == 4 && "type"@[1] == 'y',
        "role"@.len() == 4 && "role"@[1] == 'o',
        "name"@.len() == 4 && "name"@[1] == 'a',
        "content"@.len() == 7 && "content"@[1] == 'o',
        "call_id"@.len() == 7 && "call_id"@[1] == 'a',
        "output"@.len() == 6,
        "arguments"@.len() == 9,
        "user"@.len() == 4,
        "assistant"@.len() == 9,
        "text"@.len() == 4 && "text"@[0] == 't' && "text"@[1] == 'e',
        "file"@.len() == 4 && "file"@[0] == 'f',
        "refusal"@.len() == 7,
        "image_url"@.len() == 9,
        "input_text"@.len() == 10 && "input_text"@[6] == 't',
        "input_file"@.len() == 10 && "input_file"@[6] == 'f',
        "output_text"@.len() == 11 && "output_text"@[0] == 'o',
        "input_image"@.len() == 11 && "input_image"@[0] == 'i',
{
    reveal_strlit("");
    reveal_strlit("type");
    reveal_strlit("role");
    reveal_strlit("name");
    reveal_strlit("content");
    reveal_strlit("call_id");
    reveal_strlit("output");
    reveal_strlit("arguments");
    reveal_strlit("user");
    reveal_strlit("assistant");
    reveal_strlit("text");
    reveal_strlit("file");
    reveal_strlit("refusal");
    reveal_strlit("image_url");
    reveal_strlit("input_text");
    reveal_strlit("input_file");
    reveal_strlit("output_text");
    reveal_strlit("input_image");
}

/// Whether a part of a message stays as it is, where this is known of files.
pub(crate) open spec fn part_stays(files: Files, assistant: bool) -> spec_fn(JsonTree) -> bool {
    |part: JsonTree|
        {
            &&& content_part(files, part, assistant) == Ok::<Seq<JsonTree>, FileGap>(seq![part])
            &&& resolved_part(files, part) == Ok::<Seq<JsonTree>, FileGap>(seq![part])
        }
}

/// Whether an item of the input stays as it is, where this is known of files.
spec fn item_stays(files: Files) -> spec_fn(JsonTree) -> bool {
    |item: JsonTree| input_item(files, item) == Ok::<Seq<JsonTree>, FileGap>(seq![item])
}

/// Whether a part stays as it is where its files are put in place of their ids.
spec fn resolved_stays(files: Files) -> spec_fn(JsonTree) -> bool {
    |part: JsonTree| resolved_part(files, part) == Ok::<Seq<JsonTree>, FileGap>(seq![part])
}

pub(crate) proof fn lemma_text_part_stays(later: Files, assistant: bool, text: Seq<char>)
    ensures
        part_stays(later, assistant)(text_part(text_type(assistant), text)),
{
    lemma_part_names();
    lemma_item_words();
    let part = text_part(text_type(assistant), text);
    assert(part.text_field("type"@) == Some(text_type(assistant)));
    assert(part.text_field("text"@) == Some(text));
    assert(part.text_field("file_id"@) is None);
}

proof fn lemma_content_part_stays(
    files: Files,
    later: Files,
    part: JsonTree,
    assistant: bool,
    k: int,
)
    requires
        content_part(files, part, assistant) is Ok,
        0 <= k < content_part(files, part, assistant)->Ok_0.len(),
    ensures
        part_stays(later, assistant)(content_part(files, part, assistant)->Ok_0[k]),
{
    lemma_part_names();
    lemma_item_words();
    let kind = text_or(part.text_field("type"@), ""@);
    let out = content_part(files, part, assistant)->Ok_0[k];
    if kind == "text"@ || kind == "input_text"@ || kind == "output_text"@ {
        lemma_text_part_stays(later, assistant, text_or(part.text_field("text"@), ""@));
    } else if kind == "refusal"@ && assistant {
        assert(out.text_field("type"@) == Some("refusal"@));
        assert(out.text_field("refusal"@) == Some(text_or(part.text_field("refusal"@), ""@)));
        assert(out.text_field("file_id"@) is None);
    } else if kind == "image_url"@ || kind == "input_image"@ {
        assert(out.text_field("type"@) == Some("input_image"@));
        assert(out.text_field("file_id"@) is None);
    } else {
        assert(out.text_field("type"@) == Some("input_file"@));
        assert(out.text_field("file_id"@) is None);
    }
}

proof fn lemma_resolved_part_stays(files: Files, later: Files, part: JsonTree, k: int)
    requires
        resolved_part(files, part) is Ok,
        0 <= k < resolved_part(files, part)->Ok_0.len(),
    ensures
        resolved_stays(later)(resolved_part(files, part)->Ok_0[k]),
{
    lemma_part_names();
    lemma_item_words();
}

/// The content of a message that was brought into the upstream form stays as it is, and is never
/// empty.
proof fn lemma_content_parts_stay(
    files: Files,
    later: Files,
    content: Option<JsonTree>,
    assistant: bool,
)
    requires
        content_parts(files, content, assistant) is Ok,
    ensures
        ({
            let parts = content_parts(files, content, assistant)->Ok_0;
            &&& parts.len() > 0
            &&& forall|k: int|
                0 <= k < parts.len() ==> part_stays(later, assistant)(#[trigger] parts[k])
        }),
{
    lemma_text_part_stays(later, assistant, ""@);
    match content {
        Some(JsonTree::Text(text)) => {
            lemma_text_part_stays(later, assistant, text);
        },
        Some(JsonTree::List(parts)) => {
            let give = each_content_part(files, assistant);
            let holds = part_stays(later, assistant);
            assert forall|part: JsonTree, k: int|
                (#[trigger] give(part)) is Ok && 0 <= k < give(part)->Ok_0.len() implies holds(
                #[trigger] give(part)->Ok_0[k],
            ) by {
                lemma_content_part_stays(files, later, part, assistant, k);
            }
            lemma_try_flat_holds(parts, give, holds);
        },
        _ => {},
    }
}

/// The same of the content of an input item with a role.
pub(crate) proof fn lemma_role_content_stays(files: Files, later: Files, role: Seq<char>, content: JsonTree)
    requires
        role_content(files, role, content) is Ok,
    ensures
        ({
            let parts = role_content(files, role, content)->Ok_0;
            &&& parts.len() > 0
            &&& forall|k: int|
                0 <= k < parts.len() ==> part_stays(later, role == "assistant"@)(
                    #[trigger] parts[k],
                )
        }),
{
    let assistant = role == "assistant"@;
    match content {
        JsonTree::List(_) => {
            lemma_content_parts_stay(files, later, Some(content), assistant);
        },
        JsonTree::Null => {
            lemma_text_part_stays(later, assistant, ""@);
        },
        other => {
            lemma_text_part_stays(later, assistant, worded(other));
        },
    }
}

/// Parts that stay as they are need no files.
pub(crate) proof fn lemma_parts_resolved(later: Files, parts: Seq<JsonTree>, assistant: bool)
    requires
        forall|k: int| 0 <= k < parts.len() ==> part_stays(later, assistant)(#[trigger] parts[k]),
    ensures
        try_flat(parts, each_resolved_part(later)) == Ok::<Seq<JsonTree>, FileGap>(parts),
        try_flat(parts, each_content_part(later, assistant)) == Ok::<Seq<JsonTree>, FileGap>(
            parts,
        ),
{
    let resolve = each_resolved_part(later);
    let bring = each_content_part(later, assistant);
    assert forall|k: int| 0 <= k < parts.len() implies resolve(#[trigger] parts[k]) == Ok::<
        Seq<JsonTree>,
        FileGap,
    >(seq![parts[k]]) by {
        assert(part_stays(later, assistant)(parts[k]));
    }
    assert forall|k: int| 0 <= k < parts.len() implies bring(#[trigger] parts[k]) == Ok::<
        Seq<JsonTree>,
        FileGap,
    >(seq![parts[k]]) by {
        assert(part_stays(later, assistant)(parts[k]));
    }
    lemma_try_flat_same(parts, resolve);
    lemma_try_flat_same(parts, bring);
}

/// An item with a role stays as it is where its parts do.
proof fn lemma_spoken_item_stays(
    later: Files,
    fields: Fields,
    role: Seq<char>,
    parts: Seq<JsonTree>,
)
    requires
        text_of(fields, "role"@) == Some(role),
        field_of(fields, "content"@) == Some(JsonTree::List(parts)),
        parts.len() > 0,
        forall|k: int|
            0 <= k < parts.len() ==> part_stays(later, role == "assistant"@)(#[trigger] parts[k]),
    ensures
        item_stays(later)(JsonTree::Object(fields)),
{
    lemma_parts_resolved(later, parts, role == "assistant"@);
    assert(fields.insert("content"@, JsonTree::List(parts)) =~= fields);
}

proof fn lemma_input_item_stays(files: Files, later: Files, item: JsonTree, k: int)
    requires
        input_item(files, item) is Ok,
        0 <= k < input_item(files, item)->Ok_0.len(),
    ensures
        item_stays(later)(input_item(files, item)->Ok_0[k]),
{
    lemma_item_words();
    let start = item_fields(item);
    let fields = with_role_content(files, start)->Ok_0;
    match text_of(start, "role"@) {
        Some(role) => {
            let assistant = role == "assistant"@;
            let content = field_of(start, "content"@);
            if content is Some || role == "user"@ || assistant {
                let parts = if content is Some {
                    role_content(files, role, content->0)->Ok_0
                } else {
                    seq![text_part(text_type(assistant), ""@)]
                };
                if content is Some {
                    lemma_role_content_stays(files, files, role, content->0);
                    lemma_role_content_stays(files, later, role, content->0);
                } else {
                    lemma_text_part_stays(files, assistant, ""@);
                    lemma_text_part_stays(later, assistant, ""@);
                }
                assert(fields == start.insert("content"@, JsonTree::List(parts)));
                lemma_parts_resolved(files, parts, assistant);
                assert(fields.insert("content"@, JsonTree::List(parts)) =~= fields);
                lemma_spoken_item_stays(later, fields, role, parts);
            }
        },
        None => {
            if let Some(JsonTree::List(parts)) = field_of(start, "content"@) {
                let give = each_resolved_part(files);
                let resolve = each_resolved_part(later);
                let holds = resolved_stays(later);
                assert forall|part: JsonTree, k: int|
                    (#[trigger] give(part)) is Ok && 0 <= k < give(part)->Ok_0.len() implies holds(
                    #[trigger] give(part)->Ok_0[k],
                ) by {
                    lemma_resolved_part_stays(files, later, part, k);
                }
                lemma_try_flat_holds(parts, give, holds);
                let resolved = try_flat(parts, give)->Ok_0;
                assert forall|k: int| 0 <= k < resolved.len() implies resolve(
                    #[trigger] resolved[k],
                ) == Ok::<Seq<JsonTree>, FileGap>(seq![resolved[k]]) by {
                    assert(holds(resolved[k]));
                }
                lemma_try_flat_same(resolved, resolve);
                let made = start.insert("content"@, JsonTree::List(resolved));
                assert(text_of(made, "role"@) is None);
                assert(made.insert("content"@, JsonTree::List(resolved)) =~= made);
            }
        },
    }
}

proof fn lemma_message_stays(
    files: Files,
    later: Files,
    role: Seq<char>,
    content: Option<JsonTree>,
)
    requires
        content_parts(files, content, role == "assistant"@) is Ok,
    ensures
        item_stays(later)(
            message(role, content_parts(files, content, role == "assistant"@)->Ok_0),
        ),
{
    lemma_item_words();
    let parts = content_parts(files, content, role == "assistant"@)->Ok_0;
    lemma_content_parts_stay(files, later, content, role == "assistant"@);
    lemma_spoken_item_stays(later, message(role, parts)->Object_0, role, parts);
}

proof fn lemma_message_items_stay(files: Files, later: Files, message_tree: JsonTree, k: int)
    requires
        message_items(files, message_tree) is Ok,
        0 <= k < message_items(files, message_tree)->Ok_0.len(),
    ensures
        item_stays(later)(message_items(files, message_tree)->Ok_0[k]),
{
    lemma_item_words();
    let content = message_tree.field("content"@);
    let item = message_items(files, message_tree)->Ok_0[k];
    let role = text_or(message_tree.text_field("role"@), ""@);
    if role == "user"@ {
        lemma_message_stays(files, later, "user"@, content);
    } else if role == "assistant"@ {
        let said = assistant_items(files, message_tree)->Ok_0;
        if k < said.len() {
            assert(item == said[k]);
            if has_content(content) {
                lemma_message_stays(files, later, "assistant"@, content);
            } else {
                lemma_message_stays(files, later, "assistant"@, None);
                assert(text_type(true) == "output_text"@);
            }
        } else {
            assert(item == tool_call_items(message_tree)[k - said.len()]);
            assert(item.field("role"@) is None);
            assert(item.field("content"@) is None);
        }
    } else {
        assert(item.field("role"@) is None);
        assert(item.field("content"@) is None);
    }
}

/// The items of an input that was brought into the upstream form stay as they are.
proof fn lemma_input_stays(files: Files, later: Files, start: Fields, fields: Fields)
    requires
        responses_input(files, start) == Ok::<Fields, Refusal>(fields) || chat_input(files, start)
            == Ok::<Fields, Refusal>(fields),
    ensures
        list_of(fields, "input"@) is Some,
        forall|i: int|
            0 <= i < list_of(fields, "input"@)->0.len() ==> item_stays(later)(
                #[trigger] list_of(fields, "input"@)->0[i],
            ),
{
    lemma_field_names();
    let holds = item_stays(later);
    let by_item = each_input_item(files);
    let by_message = each_message_items(files);
    assert forall|item: JsonTree, k: int|
        (#[trigger] by_item(item)) is Ok && 0 <= k < by_item(item)->Ok_0.len() implies holds(
        #[trigger] by_item(item)->Ok_0[k],
    ) by {
        lemma_input_item_stays(files, later, item, k);
    }
    assert forall|item: JsonTree, k: int|
        (#[trigger] by_message(item)) is Ok && 0 <= k < by_message(item)->Ok_0.len() implies holds(
        #[trigger] by_message(item)->Ok_0[k],
    ) by {
        lemma_message_items_stay(files, later, item, k);
    }
    let listed = listed_input(field_of(start, "input"@))->List_0;
    if try_flat(listed, by_item) is Ok {
        lemma_try_flat_holds(listed, by_item, holds);
    }
    if let Some(messages) = list_of(start, "messages"@) {
        if try_flat(messages, by_message) is Ok {
            lemma_try_flat_holds(messages, by_message, holds);
        }
    }
}

/// Whether a request has no fields but those that the upstream takes.
spec fn all_allowed(request: Fields) -> bool {
    forall|key: Seq<char>| #[trigger] request.dom().contains(key) ==> allowed_field(key)
}

/// Whether what a request names as its tier, its reasoning and its text settings stays as it is.
spec fn words_stay(request: Fields) -> bool {
    &&& compat_tier(request) == field_of(request, "service_tier"@)
    &&& compat_reasoning(request) == field_of(request, "reasoning"@)
    &&& compat_text(request) == field_of(request, "text"@)
}

proof fn lemma_words_stay(before: Fields, request: Fields)
    requires
        all_allowed(request),
        field_of(request, "service_tier"@) == compat_tier(before),
        field_of(request, "reasoning"@) == compat_reasoning(before),
        field_of(request, "text"@) == compat_text(before),
    ensures
        words_stay(request),
{
    lemma_field_names();
    lemma_compatible(before);
    reveal_strlit("format");
    assert(!request.dom().contains("reasoning_effort"@));
    assert(!request.dom().contains("response_format"@));
}

proof fn lemma_prepared_stays(aliases: Map<Seq<char>, Seq<char>>, request: Fields)
    requires
        all_allowed(request),
        words_stay(request),
        aliased(aliases, request) == request,
    ensures
        prepared(aliases, request) == request,
{
    reveal(prepared);
    lemma_field_names();
    assert(!request.dom().contains("functions"@));
    assert(!request.dom().contains("function_call"@));
    assert(!request.dom().contains("max_tokens"@));
    assert(!request.dom().contains("max_completion_tokens"@));
    assert(!request.dom().contains("max_output_tokens"@));
    assert(!request.dom().contains("response_format"@));
    assert(!request.dom().contains("reasoning_effort"@));
    assert(with_function_tools(request) =~= request);
    assert(with_function_choice(request) =~= request);
    assert(compatible(request) =~= request);
}

/// Whether completing a request leaves it as it is.
spec fn is_complete(request: Fields, default: Option<Seq<char>>) -> bool {
    let items = list_of(request, "input"@);
    let own = text_of(request, "instructions"@);
    let wanted = list_of(request, "include"@);
    let tools = list_of(request, "tools"@);
    &&& all_allowed(request)
    &&& items is Some
    &&& forall|i: int| 0 <= i < items->0.len() ==> converses()(#[trigger] items->0[i])
    &&& field_of(request, "store"@) == Some(JsonTree::Bool(false))
    &&& field_of(request, "stream"@) == Some(JsonTree::Bool(true))
    &&& own is Some
    &&& trim(own->0).len() > 0 || own->0 == ""@ && trim(text_or(default, ""@)).len() == 0
    &&& wanted is Some
    &&& wanted->0.contains(encrypted_reasoning())
    &&& forall|i: int| 0 <= i < wanted->0.len() ==> includable()(#[trigger] wanted->0[i])
    &&& request.dom().contains("parallel_tool_calls"@)
    &&& tools is Some ==> tools->0.len() > 0 && forall|i: int|
        0 <= i < tools->0.len() ==> supported_tool()(#[trigger] tools->0[i])
}

proof fn lemma_completed_stays(request: Fields, default: Option<Seq<char>>)
    requires
        is_complete(request, default),
    ensures
        completed(request, default) == request,
{
    reveal(completed);
    lemma_field_names();
    reveal_strlit("");
    assert(trim(""@) =~= ""@);
    let items = list_of(request, "input"@)->0;
    lemma_filter_same(items, converses());
    assert forall|i: int| 0 <= i < items.len() implies each_item_instructions()(
        #[trigger] items[i],
    ).len() == 0 by {
        assert(converses()(items[i]));
    }
    lemma_flat_nothing(items, each_item_instructions());
    let found = joined(flat(items, each_item_instructions()), "\n\n"@);
    assert(found.len() == 0);
    assert(trim(found).len() == 0);
    assert(request.insert("input"@, JsonTree::List(items)) =~= request);
    assert(promoted(request) == request);
    let streamed = request.insert("store"@, JsonTree::Bool(false)).insert(
        "stream"@,
        JsonTree::Bool(true),
    );
    assert(streamed =~= request);
    assert(with_default_instructions(request, default) =~= request);
    let wanted = list_of(request, "include"@)->0;
    lemma_filter_same(wanted, includable());
    assert(request.insert("include"@, JsonTree::List(wanted)) =~= request);
    assert(!request.dom().contains("web_search_options"@));
    if let Some(tools) = list_of(request, "tools"@) {
        lemma_filter_same(tools, supported_tool());
        assert(request.insert("tools"@, JsonTree::List(tools)) =~= request);
    }
    assert(sanitized(request) =~= request);
}

/// A request that is sent is complete.
proof fn lemma_sent_is_complete(
    aliases: Map<Seq<char>, Seq<char>>,
    files: Files,
    default: Option<Seq<char>>,
    payload: JsonTree,
    request: Fields,
)
    requires
        sent_as(aliases, files, default, payload, request),
    ensures
        is_complete(request, default),
{
    let fields = lemma_sent(aliases, files, default, payload, request);
    lemma_field_names();
    reveal_strlit("");
    lemma_completed_instructions(fields, default);
    lemma_completed_parallel(fields, default);
    law_streams_without_storing(aliases, files, default, payload, request);
    law_asks_for_encrypted_reasoning(aliases, files, default, payload, request);
    law_tools_are_supported(aliases, files, default, payload, request);
    law_input_converses(aliases, files, default, payload, request);
    assert forall|key: Seq<char>| #[trigger]
        request.dom().contains(key) implies allowed_field(key) by {
        law_only_allowed_fields(aliases, files, default, payload, request, key);
    }
    let items = list_of(request, "input"@)->0;
    assert forall|i: int| 0 <= i < items.len() implies converses()(#[trigger] items[i]) by {}
}

/// Where no alias bears the name of a model on offer, the model of a request that was sent
/// upstream is never taken for an alias.
pub proof fn law_sent_model_is_no_alias(
    aliases: Map<Seq<char>, Seq<char>>,
    files: Files,
    default: Option<Seq<char>>,
    payload: JsonTree,
    request: Fields,
)
    requires
        sent_as(aliases, files, default, payload, request),
        forall|alias: Seq<char>| #[trigger]
            aliases.dom().contains(alias) ==> !model_names().contains(alias),
    ensures
        aliased(aliases, request) == request,
{
    law_model_is_on_offer(aliases, files, default, payload, request);
}

/// A request that was sent upstream stays as it is when it is normalized once more, on either
/// route and whatever files are known by then: it names no file that has to be looked up.
///
/// Its model must not be an alias for another one, which would take its place.
pub proof fn law_normalizing_settles(
    aliases: Map<Seq<char>, Seq<char>>,
    files: Files,
    later: Files,
    default: Option<Seq<char>>,
    payload: JsonTree,
    request: Fields,
)
    requires
        sent_as(aliases, files, default, payload, request),
        aliased(aliases, request) == request,
    ensures
        responses_request(aliases, later, default, JsonTree::Object(request)) == Ok::<
            Fields,
            Refusal,
        >(request),
        chat_request(aliases, later, default, JsonTree::Object(request)) == Ok::<Fields, Refusal>(
            request,
        ),
{
    let start = prepared(aliases, payload->Object_0);
    let fields = lemma_sent(aliases, files, default, payload, request);
    lemma_field_names();
    lemma_sent_is_complete(aliases, files, default, payload, request);
    lemma_completed_stays(request, default);
    law_model_is_on_offer(aliases, files, default, payload, request);
    assert(words_stay(request)) by {
        reveal(prepared);
        lemma_completed_keeps(fields, default, "service_tier"@);
        lemma_completed_keeps(fields, default, "reasoning"@);
        lemma_completed_keeps(fields, default, "text"@);
        assert(beside_input("service_tier"@) && beside_input("reasoning"@) && beside_input(
            "text"@,
        ));
        let before = with_function_choice(
            with_function_tools(aliased(aliases, payload->Object_0)),
        );
        lemma_compatible(before);
        lemma_words_stay(before, request);
    }
    lemma_prepared_stays(aliases, request);
    lemma_input_stays(files, later, start, fields);
    lemma_completed_input(fields, default);
    let all = list_of(fields, "input"@)->0;
    let items = list_of(request, "input"@)->0;
    let again = each_input_item(later);
    assert forall|i: int| 0 <= i < items.len() implies again(#[trigger] items[i]) == Ok::<
        Seq<JsonTree>,
        FileGap,
    >(seq![items[i]]) by {
        lemma_filter_from(all, converses(), i);
        let at = choose|j: int| 0 <= j < all.len() && all[j] == items[i];
        assert(item_stays(later)(all[at]));
    }
    lemma_try_flat_same(items, again);
    assert(request.insert("input"@, JsonTree::List(items)) =~= request);
    assert(with_input(later, request) == Ok::<Fields, Refusal>(request));
    assert(!request.dom().contains("messages"@));
    assert(request.remove("messages"@) =~= request);
}

} // verus!
