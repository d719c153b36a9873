use vstd::prelude::*;

use crate::config::model_names;
use crate::files::Files;
use crate::json::{field_of, list_of, text_of, Fields, JsonTree};
use crate::normalization::{completed, prepared};
use crate::normalization::fields::{
    aliased, compat_reasoning, compat_text, compat_tier, function_tool, has_web_search, includable,
    plain_format, plain_text_fields, promoted, searches_web, supported_tool, wants_usage,
    web_search_tool, with_default_instructions, with_encrypted_reasoning, with_function_choice,
    with_function_tools, with_parallel_tool_calls, with_supported_include, with_supported_tools,
    with_web_search_tool,
};
use crate::normalization::laws::{
    beside_input, law_model_is_on_offer, law_only_allowed_fields, lemma_compatible,
    lemma_completed_keeps, lemma_field_names, lemma_sent, sent_as,
};

verus! {

/// What tells the values that are changed apart.
proof fn lemma_value_words()
    ensures
        "effort"@.len() == 6 && "effort"@[0] == 'e',
        "minimal"@.len() == 7,
        "low"@.len() == 3,
        "format"@.len() == 6 && "format"@[0] == 'f',
        "type"@.len() == 4 && "type"@[1] == 'y',
        "text"@.len() == 4 && "text"@[1] == 'e',
        "priority"@.len() == 8,
{
    reveal_strlit("effort");
    reveal_strlit("minimal");
    reveal_strlit("low");
    reveal_strlit("format");
    reveal_strlit("type");
    reveal_strlit("text");
    reveal_strlit("priority");
}

/// A client is told the usage at the end of a stream where it says so, and not where it says
/// anything else.
pub proof fn law_usage_is_told_on_request(fields: Fields)
    ensures
        wants_usage(fields) <==> field_of(fields, "stream_options"@) is Some && field_of(
            fields,
            "stream_options"@,
        )->0.field("include_usage"@) == Some(JsonTree::Bool(true)),
{
}

/// The fields of a request that are brought into the words of the upstream.
proof fn lemma_words_of_payload(
    aliases: Map<Seq<char>, Seq<char>>,
    files: Files,
    default: Option<Seq<char>>,
    payload: JsonTree,
    request: Fields,
) -> (before: Fields)
    requires
        sent_as(aliases, files, default, payload, request),
    ensures
        field_of(request, "service_tier"@) == compat_tier(before),
        field_of(request, "reasoning"@) == compat_reasoning(before),
        field_of(request, "text"@) == compat_text(before),
        field_of(before, "service_tier"@) == payload.field("service_tier"@),
        field_of(before, "reasoning"@) == payload.field("reasoning"@),
        field_of(before, "reasoning_effort"@) == payload.field("reasoning_effort"@),
        field_of(before, "text"@) == payload.field("text"@),
        field_of(before, "response_format"@) == payload.field("response_format"@),
{
    reveal(prepared);
    let fields = lemma_sent(aliases, files, default, payload, request);
    lemma_field_names();
    lemma_completed_keeps(fields, default, "service_tier"@);
    lemma_completed_keeps(fields, default, "reasoning"@);
    lemma_completed_keeps(fields, default, "text"@);
    assert(beside_input("service_tier"@) && beside_input("reasoning"@) && beside_input("text"@));
    let before = with_function_choice(
        with_function_tools(aliased(aliases, payload->Object_0)),
    );
    lemma_compatible(before);
    before
}

/// The effort of reasoning as it goes upstream: as it was asked for, but `low` for `minimal`,
/// which the upstream does not take.
pub open spec fn sent_effort(effort: Seq<char>) -> Seq<char> {
    if effort == "minimal"@ {
        "low"@
    } else {
        effort
    }
}

/// The reasoning that a request asks for goes upstream as it was asked for: with the effort that
/// it names, but for `minimal`, and with all else that it says. The effort alone is taken where
/// there is nothing else, and nothing goes upstream where nothing was asked for.
pub proof fn law_reasoning_goes_upstream(
    aliases: Map<Seq<char>, Seq<char>>,
    files: Files,
    default: Option<Seq<char>>,
    payload: JsonTree,
    request: Fields,
    key: Seq<char>,
)
    requires
        sent_as(aliases, files, default, payload, request),
    ensures
        ({
            let reasoning = payload.field("reasoning"@);
            let effort = payload.text_field("reasoning_effort"@);
            let sent = field_of(request, "reasoning"@);
            if reasoning is Some && reasoning->0 is Object {
                &&& sent is Some && sent->0 is Object
                &&& key != "effort"@ ==> sent->0.field(key) == reasoning->0.field(key)
                &&& reasoning->0.text_field("effort"@) is Some ==> sent->0.text_field("effort"@)
                    == Some(sent_effort(reasoning->0.text_field("effort"@)->0))
                &&& reasoning->0.text_field("effort"@) is None ==> sent->0.field("effort"@)
                    == reasoning->0.field("effort"@)
            } else if reasoning is Some {
                sent == reasoning
            } else if effort is Some {
                &&& sent is Some && sent->0 is Object
                &&& sent->0.text_field("effort"@) == Some(sent_effort(effort->0))
                &&& key != "effort"@ ==> sent->0.field(key) is None
            } else {
                sent is None
            }
        }),
{
    lemma_value_words();
    let before = lemma_words_of_payload(aliases, files, default, payload, request);
    assert(text_of(before, "reasoning_effort"@) == payload.text_field("reasoning_effort"@));
}

/// Of the tiers that have a name, `priority` alone goes upstream. What is no name goes as it is.
pub proof fn law_priority_goes_upstream(
    aliases: Map<Seq<char>, Seq<char>>,
    files: Files,
    default: Option<Seq<char>>,
    payload: JsonTree,
    request: Fields,
)
    requires
        sent_as(aliases, files, default, payload, request),
    ensures
        ({
            let tier = payload.field("service_tier"@);
            let sent = field_of(request, "service_tier"@);
            if tier is Some && tier->0 is Text && tier->0 != JsonTree::Text("priority"@) {
                sent is None
            } else {
                sent == tier
            }
        }),
{
    let before = lemma_words_of_payload(aliases, files, default, payload, request);
}

/// Whether a format is plain text or does not say what it is.
pub open spec fn is_plain_format(format: Option<JsonTree>) -> bool {
    format is Some ==> format->0.text_field("type"@) is None || format->0.text_field("type"@)
        == Some("text"@)
}

/// The text settings of a request go upstream as they are, but for a format other than plain
/// text. Settings that are then empty are left out.
pub proof fn law_text_settings_go_upstream(
    aliases: Map<Seq<char>, Seq<char>>,
    files: Files,
    default: Option<Seq<char>>,
    payload: JsonTree,
    request: Fields,
    key: Seq<char>,
)
    requires
        sent_as(aliases, files, default, payload, request),
        payload.field("text"@) is Some,
    ensures
        ({
            let text = payload.field("text"@)->0;
            let sent = field_of(request, "text"@);
            if text is Object {
                let kept = if key == "format"@ && !is_plain_format(text.field("format"@)) {
                    None
                } else {
                    text.field(key)
                };
                &&& kept is Some ==> sent is Some && sent->0.field(key) == kept
                &&& kept is None && sent is Some ==> sent->0 is Object && sent->0.field(key) is None
            } else {
                sent == Some(text)
            }
        }),
{
    lemma_value_words();
    let before = lemma_words_of_payload(aliases, files, default, payload, request);
    let text = payload.field("text"@)->0;
    if text is Object {
        let kept = plain_text_fields(text->Object_0);
        assert(field_of(kept, key) is Some ==> kept.dom().contains(key));
    }
}

/// A response format of plain text goes upstream as a text setting, and no other does.
pub proof fn law_response_format_goes_upstream(
    aliases: Map<Seq<char>, Seq<char>>,
    files: Files,
    default: Option<Seq<char>>,
    payload: JsonTree,
    request: Fields,
)
    requires
        sent_as(aliases, files, default, payload, request),
        payload.field("text"@) is None,
    ensures
        ({
            let format = payload.field("response_format"@);
            let sent = field_of(request, "text"@);
            if format is Some && format->0.text_field("type"@) == Some("text"@) {
                &&& sent is Some
                &&& sent->0.field("format"@) is Some
                &&& sent->0.field("format"@)->0.text_field("type"@) == Some("text"@)
                &&& forall|key: Seq<char>|
                    key != "format"@ ==> #[trigger] sent->0.field(key) is None
            } else {
                sent is None
            }
        }),
{
    lemma_value_words();
    let before = lemma_words_of_payload(aliases, files, default, payload, request);
    let plain = plain_format();
    assert(plain->Object_0.dom().contains("format"@));
}

/// Text settings of which nothing is left do not go upstream.
pub proof fn law_empty_text_settings_are_left_out(
    aliases: Map<Seq<char>, Seq<char>>,
    files: Files,
    default: Option<Seq<char>>,
    payload: JsonTree,
    request: Fields,
)
    requires
        sent_as(aliases, files, default, payload, request),
        payload.field("text"@) is Some,
        payload.field("text"@)->0 is Object,
        ({
            let text = payload.field("text"@)->0;
            forall|key: Seq<char>| #[trigger]
                text.field(key) is Some ==> key == "format"@ && !is_plain_format(text.field(key))
        }),
    ensures
        field_of(request, "text"@) is None,
{
    lemma_value_words();
    let before = lemma_words_of_payload(aliases, files, default, payload, request);
    let text = payload.field("text"@)->0;
    let kept = plain_text_fields(text->Object_0);
    assert forall|key: Seq<char>| !kept.dom().contains(key) by {
        assert(text.field(key) is Some == text->Object_0.dom().contains(key));
    }
    assert(kept.dom() =~= Set::empty());
}

/// Nothing but what the upstream takes goes there, and none of the limits on tokens does.
pub proof fn law_no_other_field_goes_upstream(
    aliases: Map<Seq<char>, Seq<char>>,
    files: Files,
    default: Option<Seq<char>>,
    payload: JsonTree,
    request: Fields,
    key: Seq<char>,
)
    requires
        sent_as(aliases, files, default, payload, request),
        key != "model"@,
        key != "input"@,
        key != "instructions"@,
        key != "tools"@,
        key != "tool_choice"@,
        key != "store"@,
        key != "include"@,
        key != "stream"@,
        key != "reasoning"@,
        key != "text"@,
        key != "parallel_tool_calls"@,
        key != "previous_response_id"@,
        key != "prompt_cache_key"@,
        key != "service_tier"@,
    ensures
        !request.dom().contains(key),
{
    if request.dom().contains(key) {
        law_only_allowed_fields(aliases, files, default, payload, request, key);
    }
}

/// The model that goes upstream is the one that the payload names, or the one that its name is an
/// alias for.
pub proof fn law_model_goes_upstream(
    aliases: Map<Seq<char>, Seq<char>>,
    files: Files,
    default: Option<Seq<char>>,
    payload: JsonTree,
    request: Fields,
)
    requires
        sent_as(aliases, files, default, payload, request),
    ensures
        ({
            let named = payload.text_field("model"@);
            &&& named is Some
            &&& text_of(request, "model"@) == Some(
                if aliases.dom().contains(named->0) {
                    aliases[named->0]
                } else {
                    named->0
                },
            )
        }),
{
    law_model_is_on_offer(aliases, files, default, payload, request);
    let fields = lemma_sent(aliases, files, default, payload, request);
    lemma_no_model_without_name();
}

proof fn lemma_no_model_without_name()
    ensures
        !model_names().contains(""@),
{
    let names = model_names();
    law_models_on_offer();
    reveal_strlit("");
    if names.contains(""@) {
        let i = choose|i: int| 0 <= i < names.len() && names[i] == ""@;
        assert(names[i].len() > 0);
    }
}

/// The models on offer, in order.
pub proof fn law_models_on_offer()
    ensures
        model_names() == seq![
            "gpt-5.3-codex"@,
            "gpt-5.4"@,
            "gpt-5.4-mini"@,
            "gpt-5.2-codex"@,
            "gpt-5.1-codex-max"@,
            "gpt-5.2"@,
            "gpt-5.1-codex-mini"@,
            "gpt-5.3-codex-spark"@,
        ],
        forall|i: int|
            0 <= i < model_names().len() ==> (
            #[trigger] model_names()[i]).len() > 0,
{
    reveal_strlit("gpt-5.3-codex");
    reveal_strlit("gpt-5.4");
    reveal_strlit("gpt-5.4-mini");
    reveal_strlit("gpt-5.2-codex");
    reveal_strlit("gpt-5.1-codex-max");
    reveal_strlit("gpt-5.2");
    reveal_strlit("gpt-5.1-codex-mini");
    reveal_strlit("gpt-5.3-codex-spark");
}

/// Whether the upstream takes what is asked for under `include`.
pub open spec fn is_known_include(item: JsonTree) -> bool {
    ||| item == JsonTree::Text("reasoning.encrypted_content"@)
    ||| item == JsonTree::Text("file_search_call.results"@)
    ||| item == JsonTree::Text("web_search_call.results"@)
    ||| item == JsonTree::Text("web_search_call.action.sources"@)
    ||| item == JsonTree::Text("message.input_image.image_url"@)
    ||| item == JsonTree::Text("computer_call_output.output.image_url"@)
    ||| item == JsonTree::Text("code_interpreter_call.outputs"@)
    ||| item == JsonTree::Text("message.output_text.logprobs"@)
}

/// `is_known_include` as a function of the item.
pub open spec fn known_includes() -> spec_fn(JsonTree) -> bool {
    |item: JsonTree| is_known_include(item)
}

/// All that a request asks for under `include` goes upstream where the upstream takes it, in
/// order, and the encrypted reasoning behind it where that was not asked for.
pub proof fn law_includes_go_upstream(
    aliases: Map<Seq<char>, Seq<char>>,
    files: Files,
    default: Option<Seq<char>>,
    payload: JsonTree,
    request: Fields,
)
    requires
        sent_as(aliases, files, default, payload, request),
    ensures
        ({
            let wanted = match payload.list_field("include"@) {
                Some(wanted) => wanted,
                None => Seq::empty(),
            };
            let encrypted = JsonTree::Text("reasoning.encrypted_content"@);
            let kept = wanted.filter(known_includes());
            list_of(request, "include"@) == Some(
                if wanted.contains(encrypted) {
                    kept
                } else {
                    kept.push(encrypted)
                },
            )
        }),
{
    reveal(prepared);
    reveal(completed);
    let fields = lemma_sent(aliases, files, default, payload, request);
    lemma_field_names();
    assert(beside_input("include"@));
    assert(field_of(fields, "include"@) == payload.field("include"@));
    let wanted = match payload.list_field("include"@) {
        Some(wanted) => wanted,
        None => Seq::empty(),
    };
    let encrypted = JsonTree::Text("reasoning.encrypted_content"@);
    lemma_filter_agrees(wanted, includable(), known_includes());
    lemma_filter_push(wanted, includable(), encrypted);
    assert(Seq::<JsonTree>::empty().push(encrypted) =~= seq![encrypted]);
}

/// Two tests that agree keep the same items.
pub(crate) proof fn lemma_filter_agrees<A>(
    items: Seq<A>,
    first: spec_fn(A) -> bool,
    second: spec_fn(A) -> bool,
)
    requires
        forall|i: int| 0 <= i < items.len() ==> first(#[trigger] items[i]) == second(items[i]),
    ensures
        items.filter(first) == items.filter(second),
    decreases items.len(),
{
    reveal(Seq::filter);
    if items.len() > 0 {
        let fewer = items.drop_last();
        assert forall|i: int| 0 <= i < fewer.len() implies first(#[trigger] fewer[i]) == second(
            fewer[i],
        ) by {
            assert(fewer[i] == items[i]);
        }
        lemma_filter_agrees(fewer, first, second);
        assert(first(items[items.len() - 1]) == second(items[items.len() - 1]));
    }
}

pub(crate) proof fn lemma_filter_push<A>(items: Seq<A>, kept: spec_fn(A) -> bool, item: A)
    ensures
        items.push(item).filter(kept) == (if kept(item) {
            items.filter(kept).push(item)
        } else {
            items.filter(kept)
        }),
{
    reveal(Seq::filter);
    assert(items.push(item).drop_last() =~= items);
}

/// Whether a tool is of a type that the upstream takes.
pub open spec fn is_known_tool(tool: JsonTree) -> bool {
    ||| tool.text_field("type"@) == Some("function"@)
    ||| tool.text_field("type"@) == Some("web_search"@)
    ||| tool.text_field("type"@) == Some("image_generation"@)
}

/// `is_known_tool` as a function of the tool.
pub open spec fn known_tools() -> spec_fn(JsonTree) -> bool {
    |tool: JsonTree| is_known_tool(tool)
}

/// Whether a tool is a function of the older form: with all that this says, and of the type
/// `function` where this names none.
pub open spec fn is_function_tool(tool: JsonTree, function: JsonTree) -> bool {
    if function is Object {
        &&& tool is Object
        &&& forall|key: Seq<char>| key != "type"@ ==> tool.field(key) == function.field(key)
        &&& tool.field("type"@) == (if function.field("type"@) is Some {
            function.field("type"@)
        } else {
            Some(JsonTree::Text("function"@))
        })
    } else {
        tool == function
    }
}

/// Whether tools are those that a payload asks for: those under `tools`, or else the functions of
/// the older form, one by one.
pub open spec fn are_asked_tools(tools: Seq<JsonTree>, payload: JsonTree) -> bool {
    if payload.field("tools"@) is Some {
        payload.list_field("tools"@) == Some(tools)
    } else if payload.list_field("functions"@) is Some {
        let functions = payload.list_field("functions"@)->0;
        tools.len() == functions.len() && forall|i: int|
            0 <= i < tools.len() ==> is_function_tool(#[trigger] tools[i], functions[i])
    } else {
        tools.len() == 0
    }
}

/// Whether a tool searches the web, as options of a request say.
pub open spec fn is_search_tool(tool: JsonTree, options: JsonTree) -> bool {
    &&& tool.text_field("type"@) == Some("web_search"@)
    &&& tool.field("search_context_size"@) == options.field("search_context_size"@)
    &&& tool.field("user_location"@) == options.field("user_location"@)
    &&& forall|key: Seq<char>|
        key != "type"@ && key != "search_context_size"@ && key != "user_location"@
            ==> #[trigger] tool.field(key) is None
}

/// Whether some tool searches the web.
pub open spec fn any_search(tools: Seq<JsonTree>) -> bool {
    exists|i: int|
        0 <= i < tools.len() && (#[trigger] tools[i]).text_field("type"@) == Some("web_search"@)
}

/// The items of a list of tools.
spec fn items_of_tools(tools: Option<JsonTree>) -> Seq<JsonTree> {
    match tools {
        Some(JsonTree::List(items)) => items,
        _ => Seq::empty(),
    }
}

/// The tools that go upstream, by the tools and the options of a request.
spec fn sent_tools(tools: Option<JsonTree>, options: Option<JsonTree>) -> Option<JsonTree> {
    let all = items_of_tools(tools);
    let more = match options {
        Some(options) => if any_search(all) {
            all
        } else {
            all.push(web_search_tool(options))
        },
        None => all,
    };
    if tools is Some && !(tools->0 is List) {
        tools
    } else if more.filter(supported_tool()).len() == 0 {
        None
    } else {
        Some(JsonTree::List(more.filter(supported_tool())))
    }
}

proof fn lemma_any_search(fields: Fields)
    ensures
        has_web_search(fields) == any_search(items_of_tools(field_of(fields, "tools"@))),
{
    let all = items_of_tools(field_of(fields, "tools"@));
    if has_web_search(fields) {
        let tools = list_of(fields, "tools"@)->0;
        let i = choose|i: int| 0 <= i < tools.len() && searches_web(#[trigger] tools[i]);
        assert(all[i].text_field("type"@) == Some("web_search"@));
    }
    if any_search(all) {
        let i = choose|i: int|
            0 <= i < all.len() && (#[trigger] all[i]).text_field("type"@) == Some("web_search"@);
        let tools = list_of(fields, "tools"@)->0;
        assert(searches_web(tools[i]));
    }
}

proof fn lemma_with_tools(fields: Fields)
    ensures
        field_of(
            with_supported_tools(with_supported_include(with_web_search_tool(fields))),
            "tools"@,
        ) == sent_tools(field_of(fields, "tools"@), field_of(fields, "web_search_options"@)),
{
    lemma_field_names();
    let rest = fields.remove("web_search_options"@);
    let searched = with_web_search_tool(fields);
    assert(field_of(with_supported_include(searched), "tools"@) == field_of(searched, "tools"@));
    assert(field_of(rest, "tools"@) == field_of(fields, "tools"@));
    let all = items_of_tools(field_of(fields, "tools"@));
    lemma_any_search(rest);
    if let Some(options) = field_of(fields, "web_search_options"@) {
        assert(Seq::<JsonTree>::empty().push(web_search_tool(options)) =~= seq![
            web_search_tool(options),
        ]);
    }
    assert(Seq::<JsonTree>::empty().filter(supported_tool()).len() == 0) by {
        reveal(Seq::filter);
    }
}

proof fn lemma_completed_tools_are(fields: Fields, default: Option<Seq<char>>)
    ensures
        field_of(completed(fields, default), "tools"@) == sent_tools(
            field_of(fields, "tools"@),
            field_of(fields, "web_search_options"@),
        ),
{
    lemma_field_names();
    reveal(completed);
    let streamed = promoted(fields).insert(
        "store"@,
        JsonTree::Bool(false),
    ).insert("stream"@, JsonTree::Bool(true));
    let reasoned = with_parallel_tool_calls(
        with_encrypted_reasoning(with_default_instructions(streamed, default)),
    );
    assert(field_of(reasoned, "tools"@) == field_of(fields, "tools"@));
    assert(field_of(reasoned, "web_search_options"@) == field_of(fields, "web_search_options"@));
    lemma_with_tools(reasoned);
}

proof fn lemma_prepared_tools(aliases: Map<Seq<char>, Seq<char>>, start: Fields)
    ensures
        field_of(prepared(aliases, start), "tools"@) == field_of(
            with_function_tools(aliased(aliases, start)),
            "tools"@,
        ),
        field_of(prepared(aliases, start), "web_search_options"@) == field_of(
            start,
            "web_search_options"@,
        ),
        field_of(aliased(aliases, start), "tools"@) == field_of(start, "tools"@),
        field_of(aliased(aliases, start), "functions"@) == field_of(start, "functions"@),
{
    reveal(prepared);
    lemma_field_names();
}

/// All tools that a request asks for go upstream where the upstream takes them, in order.
/// Options for web search go behind them as one more tool, unless a tool searches the web.
pub proof fn law_tools_go_upstream(
    aliases: Map<Seq<char>, Seq<char>>,
    files: Files,
    default: Option<Seq<char>>,
    payload: JsonTree,
    request: Fields,
) -> (tools: Seq<JsonTree>)
    requires
        sent_as(aliases, files, default, payload, request),
        payload.field("tools"@) is None || payload.list_field("tools"@) is Some,
    ensures
        are_asked_tools(tools, payload),
        ({
            let kept = tools.filter(known_tools());
            let options = payload.field("web_search_options"@);
            let sent = list_of(request, "tools"@);
            if options is Some && !any_search(tools) {
                &&& sent is Some && sent->0.len() == kept.len() + 1
                &&& sent->0.drop_last() == kept
                &&& is_search_tool(sent->0.last(), options->0)
            } else if kept.len() > 0 {
                sent == Some(kept)
            } else {
                field_of(request, "tools"@) is None
            }
        }),
{
    let fields = lemma_sent(aliases, files, default, payload, request);
    let start = payload->Object_0;
    lemma_prepared_tools(aliases, start);
    lemma_completed_tools_are(fields, default);
    lemma_field_names();
    assert(beside_input("tools"@) && beside_input("web_search_options"@));
    let own = with_function_tools(aliased(aliases, start));
    let tools = match list_of(own, "tools"@) {
        Some(tools) => tools,
        None => Seq::empty(),
    };
    assert(are_asked_tools(tools, payload)) by {
        lemma_tool_words();
        if payload.field("tools"@) is None && payload.list_field("functions"@) is Some {
            let functions = payload.list_field("functions"@)->0;
            assert forall|i: int| 0 <= i < tools.len() implies is_function_tool(
                #[trigger] tools[i],
                functions[i],
            ) by {
                assert(tools[i] == function_tool(functions[i]));
            }
        }
    }
    assert forall|i: int| 0 <= i < tools.len() implies supported_tool()(#[trigger] tools[i])
        == known_tools()(tools[i]) by {
        lemma_tool_words();
    }
    lemma_filter_agrees(tools, supported_tool(), known_tools());
    if let Some(options) = payload.field("web_search_options"@) {
        let tool = web_search_tool(options);
        lemma_search_tool(options);
        lemma_filter_push(tools, supported_tool(), tool);
        let kept = tools.filter(known_tools());
        assert(kept.push(tool).drop_last() =~= kept);
    }
    tools
}

/// What tells the names in a tool apart.
proof fn lemma_tool_words()
    ensures
        ""@.len() == 0,
        "type"@.len() == 4 && "type"@[0] == 't',
        "name"@.len() == 4 && "name"@[0] == 'n',
        "function"@.len() == 8,
        "web_search"@.len() == 10,
        "image_generation"@.len() == 16,
        "search_context_size"@.len() == 19,
        "user_location"@.len() == 13,
{
    reveal_strlit("");
    reveal_strlit("type");
    reveal_strlit("name");
    reveal_strlit("function");
    reveal_strlit("web_search");
    reveal_strlit("image_generation");
    reveal_strlit("search_context_size");
    reveal_strlit("user_location");
}

proof fn lemma_search_tool(options: JsonTree)
    ensures
        is_search_tool(web_search_tool(options), options),
        supported_tool()(web_search_tool(options)),
{
    lemma_tool_words();
}

/// Tools that are no list go upstream as they are.
pub proof fn law_odd_tools_go_upstream(
    aliases: Map<Seq<char>, Seq<char>>,
    files: Files,
    default: Option<Seq<char>>,
    payload: JsonTree,
    request: Fields,
)
    requires
        sent_as(aliases, files, default, payload, request),
        payload.field("tools"@) is Some,
        payload.list_field("tools"@) is None,
    ensures
        field_of(request, "tools"@) == payload.field("tools"@),
{
    let fields = lemma_sent(aliases, files, default, payload, request);
    lemma_prepared_tools(aliases, payload->Object_0);
    lemma_completed_tools_are(fields, default);
    lemma_field_names();
    assert(beside_input("tools"@) && beside_input("web_search_options"@));
}

/// The choice of a tool goes upstream as it is. Where there is none, the choice of a function of
/// the older form goes in its place, by the name of the function.
pub proof fn law_tool_choice_goes_upstream(
    aliases: Map<Seq<char>, Seq<char>>,
    files: Files,
    default: Option<Seq<char>>,
    payload: JsonTree,
    request: Fields,
)
    requires
        sent_as(aliases, files, default, payload, request),
    ensures
        ({
            let choice = payload.field("tool_choice"@);
            let function = payload.field("function_call"@);
            let sent = field_of(request, "tool_choice"@);
            if choice is Some || function is None {
                sent == choice
            } else if function->0 is Object {
                let name = function->0.text_field("name"@);
                &&& sent is Some && sent->0 is Object
                &&& name is Some ==> sent->0.text_field("type"@) == Some("function"@)
                    && sent->0.text_field("name"@) == name && forall|key: Seq<char>|
                    key != "type"@ && key != "name"@ ==> #[trigger] sent->0.field(key) is None
                &&& name is None ==> sent->0.field("name"@) is None && forall|key: Seq<char>|
                    key != "name"@ ==> sent->0.field(key) == function->0.field(key)
            } else {
                sent == function
            }
        }),
{
    reveal(prepared);
    let fields = lemma_sent(aliases, files, default, payload, request);
    lemma_field_names();
    lemma_tool_words();
    lemma_completed_keeps(fields, default, "tool_choice"@);
    assert(beside_input("tool_choice"@));
}

} // verus!
