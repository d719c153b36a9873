use vstd::prelude::*;
use vstd::utf8::*;

use crate::digest::sha256_text;
use crate::json::JsonTree;
use crate::serde_bridge::{number_of_signed, printed};
use crate::streaming::chunks::{chat_chunk, event_line, event_step};
use crate::streaming::tool_calls::{
    client_id, first_fitting, known_alias, law_tool_call_keeps_its_id, lemma_alias_untouched,
    lemma_with_alias, usable_ids, CURSOR_MAX_TOOL_CALL_ID_LEN, ToolCalls,
};

verus! {

/// What tells the types of events apart.
pub(crate) proof fn lemma_event_types()
    ensures
        "response.output_text.delta"@.len() == 26 && "response.output_text.delta"@[16] == 't',
        "response.reasoning_summary_text.delta"@.len() == 37
            && "response.reasoning_summary_text.delta"@[9] == 'r',
        "response.reasoning_text.delta"@.len() == 29,
        "response.content_part.added"@.len() == 27,
        "response.output_item.added"@.len() == 26 && "response.output_item.added"@[16] == 'i',
        "response.function_call_arguments.delta"@.len() == 38,
        "response.custom_tool_call_input.delta"@.len() == 37
            && "response.custom_tool_call_input.delta"@[9] == 'c',
        "response.function_call_arguments.done"@.len() == 37
            && "response.function_call_arguments.done"@[9] == 'f',
        "response.custom_tool_call_input.done"@.len() == 36,
{
    reveal_strlit("response.output_text.delta");
    reveal_strlit("response.reasoning_summary_text.delta");
    reveal_strlit("response.reasoning_text.delta");
    reveal_strlit("response.content_part.added");
    reveal_strlit("response.output_item.added");
    reveal_strlit("response.function_call_arguments.delta");
    reveal_strlit("response.custom_tool_call_input.delta");
    reveal_strlit("response.function_call_arguments.done");
    reveal_strlit("response.custom_tool_call_input.done");
}

/// What tells the names in a chunk apart.
proof fn lemma_chunk_words()
    ensures
        ""@.len() == 0,
        "id"@.len() == 2,
        "object"@.len() == 6,
        "created"@.len() == 7 && "created"@[0] == 'c' && "created"@[1] == 'r',
        "model"@.len() == 5 && "model"@[0] == 'm',
        "choices"@.len() == 7 && "choices"@[0] == 'c' && "choices"@[1] == 'h',
        "index"@.len() == 5 && "index"@[0] == 'i',
        "delta"@.len() == 5 && "delta"@[0] == 'd',
        "finish_reason"@.len() == 13,
        "tool_calls"@.len() == 10,
        "type"@.len() == 4 && "type"@[0] == 't',
        "function"@.len() == 8,
        "name"@.len() == 4 && "name"@[0] == 'n',
        "arguments"@.len() == 9,
        "content"@.len() == 7 && "content"@[0] == 'c' && "content"@[1] == 'o',
        "refusal"@.len() == 7 && "refusal"@[0] == 'r',
{
    reveal_strlit("");
    reveal_strlit("id");
    reveal_strlit("object");
    reveal_strlit("created");
    reveal_strlit("model");
    reveal_strlit("choices");
    reveal_strlit("index");
    reveal_strlit("delta");
    reveal_strlit("finish_reason");
    reveal_strlit("tool_calls");
    reveal_strlit("type");
    reveal_strlit("function");
    reveal_strlit("name");
    reveal_strlit("arguments");
    reveal_strlit("content");
    reveal_strlit("refusal");
}

/// Whether a value is a chunk of the chat completion with this id, time and model, and not its
/// last one.
pub open spec fn is_chunk(
    chunk: JsonTree,
    chunk_id: Seq<char>,
    created: i64,
    model: Seq<char>,
) -> bool {
    let choices = chunk.list_field("choices"@);
    &&& chunk.text_field("id"@) == Some(chunk_id)
    &&& chunk.text_field("object"@) == Some("chat.completion.chunk"@)
    &&& chunk.field("created"@) == Some(JsonTree::Number(number_of_signed(created)))
    &&& chunk.text_field("model"@) == Some(model)
    &&& choices is Some && choices->0.len() == 1
    &&& choices->0[0].field("index"@) == Some(JsonTree::Number(number_of_signed(0)))
    &&& choices->0[0].field("finish_reason"@) == Some(JsonTree::Null)
    &&& forall|key: Seq<char>|
        key != "id"@ && key != "object"@ && key != "created"@ && key != "model"@ && key
            != "choices"@ ==> #[trigger] chunk.field(key) is None
    &&& forall|key: Seq<char>|
        key != "index"@ && key != "delta"@ && key != "finish_reason"@
            ==> #[trigger] choices->0[0].field(key) is None
}

/// What a chunk adds to the answer.
pub open spec fn chunk_delta(chunk: JsonTree) -> Option<JsonTree> {
    chunk.list_field("choices"@)->0[0].field("delta"@)
}

/// A value as a client is sent it.
pub open spec fn sent_frame(value: JsonTree) -> Seq<char> {
    "data: "@ + printed(value) + "\n\n"@
}

/// The frame of an event carries a whole chunk with what the event adds to the answer, and there
/// is a frame exactly where the event adds something.
pub proof fn law_line_carries_the_step(
    event: JsonTree,
    calls: ToolCalls,
    chunk_id: Seq<char>,
    created: i64,
    model: Seq<char>,
) -> (chunk: JsonTree)
    ensures
        ({
            let (line, behind) = event_line(event, calls, chunk_id, created, model);
            let (step, after) = event_step(event, calls);
            &&& behind == after
            &&& line is Some == step is Some
            &&& step is Some ==> {
                &&& line == Some(sent_frame(chunk))
                &&& is_chunk(chunk, chunk_id, created, model)
                &&& chunk_delta(chunk) == step
            }
        }),
{
    lemma_chunk_words();
    let step = event_step(event, calls).0;
    if step is Some {
        chat_chunk(chunk_id, created, model, step->0, JsonTree::Null)
    } else {
        JsonTree::Null
    }
}

/// Each bit of text that the upstream sends is told as such, whole and as it came.
pub proof fn law_text_is_told(event: JsonTree, calls: ToolCalls)
    requires
        event.text_field("type"@) == Some("response.output_text.delta"@),
        event.text_field("delta"@) is Some,
    ensures
        event_step(event, calls).1 == calls,
        ({
            let step = event_step(event, calls).0;
            &&& step is Some
            &&& step->0.text_field("content"@) == event.text_field("delta"@)
            &&& forall|key: Seq<char>| key != "content"@ ==> step->0.field(key) is None
        }),
{
    lemma_event_types();
}

/// Each bit of reasoning, in full or in summary, is told as such and not as part of the answer.
pub proof fn law_reasoning_is_told(event: JsonTree, calls: ToolCalls)
    requires
        event.text_field("type"@) == Some("response.reasoning_summary_text.delta"@)
            || event.text_field("type"@) == Some("response.reasoning_text.delta"@),
        event.text_field("delta"@) is Some,
    ensures
        event_step(event, calls).1 == calls,
        ({
            let step = event_step(event, calls).0;
            &&& step is Some
            &&& step->0.text_field("reasoning_content"@) == event.text_field("delta"@)
            &&& forall|key: Seq<char>| key != "reasoning_content"@ ==> step->0.field(key) is None
        }),
{
    lemma_event_types();
}

/// A refusal is told when the part with it begins, and a part of another kind is not told as one.
pub proof fn law_refusal_is_told(event: JsonTree, calls: ToolCalls)
    requires
        event.text_field("type"@) == Some("response.content_part.added"@),
        event.field("part"@) is Some,
    ensures
        event_step(event, calls).1 == calls,
        ({
            let part = event.field("part"@)->0;
            let step = event_step(event, calls).0;
            &&& step is Some == (part.text_field("type"@) == Some("refusal"@))
            &&& step is Some ==> {
                &&& step->0.text_field("refusal"@) == (match part.text_field("refusal"@) {
                    Some(refusal) => Some(refusal),
                    None => Some(""@),
                })
                &&& forall|key: Seq<char>| key != "refusal"@ ==> step->0.field(key) is None
            }
        }),
{
    lemma_event_types();
    lemma_chunk_words();
}

/// Whether an event is one that the client is told of, where it carries what it should.
pub open spec fn is_told_of(kind: Option<Seq<char>>) -> bool {
    ||| kind == Some("response.output_text.delta"@)
    ||| kind == Some("response.reasoning_summary_text.delta"@)
    ||| kind == Some("response.reasoning_text.delta"@)
    ||| kind == Some("response.content_part.added"@)
    ||| kind == Some("response.output_item.added"@)
    ||| brings_arguments(kind)
    ||| ends_arguments(kind)
}

/// Whether an event brings a bit of the arguments of a tool call.
pub open spec fn brings_arguments(kind: Option<Seq<char>>) -> bool {
    kind == Some("response.function_call_arguments.delta"@) || kind == Some(
        "response.custom_tool_call_input.delta"@,
    )
}

/// Whether an event brings the arguments of a tool call as a whole.
pub open spec fn ends_arguments(kind: Option<Seq<char>>) -> bool {
    kind == Some("response.function_call_arguments.done"@) || kind == Some(
        "response.custom_tool_call_input.done"@,
    )
}

/// Events of any other type add nothing to the answer.
pub proof fn law_other_events_are_not_told(event: JsonTree, calls: ToolCalls)
    requires
        !is_told_of(event.text_field("type"@)),
    ensures
        event_step(event, calls) == (None::<JsonTree>, calls),
{
}

/// An event without a bit of text or of arguments, where it should have one, adds nothing.
pub proof fn law_nothing_is_made_up(event: JsonTree, calls: ToolCalls)
    requires
        event.text_field("delta"@) is None,
        event.field("item"@) is None,
        event.field("part"@) is None,
        event.text_field("arguments"@) is None,
        event.text_field("input"@) is None,
    ensures
        event_step(event, calls) == (None::<JsonTree>, calls),
{
    lemma_event_types();
    lemma_chunk_words();
}

/// The tool call that a step of an answer tells of.
pub open spec fn told_call(step: Option<JsonTree>) -> JsonTree {
    step->0.list_field("tool_calls"@)->0[0]
}

/// Whether a step of an answer tells of one tool call and of nothing else.
pub open spec fn tells_one_call(step: Option<JsonTree>) -> bool {
    &&& step is Some
    &&& step->0.list_field("tool_calls"@) is Some
    &&& step->0.list_field("tool_calls"@)->0.len() == 1
    &&& forall|key: Seq<char>| key != "tool_calls"@ ==> step->0.field(key) is None
}

/// What a step of an answer tells of the function that a tool call is for.
pub open spec fn told_function(step: Option<JsonTree>, key: Seq<char>) -> Option<Seq<char>> {
    match told_call(step).field("function"@) {
        Some(function) => function.text_field(key),
        None => None,
    }
}

/// The place that a step of an answer gives a tool call.
pub open spec fn told_place(step: Option<JsonTree>) -> Option<JsonTree> {
    told_call(step).field("index"@)
}

/// Whether an output item calls a tool.
pub open spec fn item_calls(item: JsonTree) -> bool {
    item.text_field("type"@) == Some("function_call"@) || item.text_field("type"@) == Some(
        "custom_tool_call"@,
    )
}

/// Whether a text is there and is not empty.
pub open spec fn is_filled(text: Option<Seq<char>>) -> bool {
    text is Some && text->0.len() > 0
}

/// Whether a tool call is told of whole: as a function, with an id, a name and arguments, and with
/// nothing else but its place.
pub open spec fn is_whole_call(call: JsonTree) -> bool {
    let function = call.field("function"@);
    &&& call.text_field("type"@) == Some("function"@)
    &&& call.text_field("id"@) is Some
    &&& function is Some
    &&& forall|key: Seq<char>|
        key != "index"@ && key != "id"@ && key != "type"@ && key != "function"@
            ==> #[trigger] call.field(key) is None
    &&& forall|key: Seq<char>|
        key != "name"@ && key != "arguments"@ ==> #[trigger] function->0.field(key) is None
}

/// A tool call that begins is told with its name, with its place where the event gives one, and
/// with an id, as a function with arguments to come.
pub proof fn law_tool_call_is_told(event: JsonTree, calls: ToolCalls)
    requires
        event.text_field("type"@) == Some("response.output_item.added"@),
        event.field("item"@) is Some,
        item_calls(event.field("item"@)->0),
        is_filled(event.field("item"@)->0.text_field("call_id"@)) || is_filled(
            event.field("item"@)->0.text_field("id"@),
        ),
    ensures
        ({
            let item = event.field("item"@)->0;
            let step = event_step(event, calls).0;
            &&& tells_one_call(step)
            &&& is_whole_call(told_call(step))
            &&& told_function(step, "name"@) == (match item.text_field("name"@) {
                Some(name) => Some(name),
                None => Some("custom_tool"@),
            })
            &&& told_function(step, "arguments"@) == Some(""@)
            &&& event.integer_field("output_index"@) is Some ==> told_place(step) == Some(
                JsonTree::Number(number_of_signed(event.integer_field("output_index"@)->0)),
            )
        }),
{
    lemma_event_types();
    lemma_chunk_words();
}

/// An item that begins and calls no tool, or has no id to know it by, is not told.
pub proof fn law_other_items_are_not_told(event: JsonTree, calls: ToolCalls)
    requires
        event.text_field("type"@) == Some("response.output_item.added"@),
        event.field("item"@) is Some,
        !item_calls(event.field("item"@)->0) || !is_filled(
            event.field("item"@)->0.text_field("call_id"@),
        ) && !is_filled(event.field("item"@)->0.text_field("id"@)),
    ensures
        event_step(event, calls) == (None::<JsonTree>, calls),
{
    lemma_event_types();
}

/// A tool call with new ids is known to the client by the call id of the upstream, where that has
/// at most 40 bytes, and else by the id of its item, where that is short enough.
pub proof fn law_tool_call_has_its_own_id(event: JsonTree, calls: ToolCalls)
    requires
        event.text_field("type"@) == Some("response.output_item.added"@),
        event.field("item"@) is Some,
        item_calls(event.field("item"@)->0),
        ({
            let call_id = event.field("item"@)->0.text_field("call_id"@);
            let item_id = event.field("item"@)->0.text_field("id"@);
            &&& call_id is Some ==> !calls.aliases.dom().contains(call_id->0)
            &&& item_id is Some ==> !calls.aliases.dom().contains(item_id->0)
        }),
    ensures
        ({
            let call_id = event.field("item"@)->0.text_field("call_id"@);
            let item_id = event.field("item"@)->0.text_field("id"@);
            let call_id_serves = is_filled(call_id) && encode_utf8(call_id->0).len() <= 40;
            let item_id_serves = is_filled(item_id) && encode_utf8(item_id->0).len() <= 40;
            let id = told_call(event_step(event, calls).0).text_field("id"@);
            &&& call_id_serves ==> id == call_id
            &&& !call_id_serves && item_id_serves ==> id == item_id
        }),
{
    lemma_event_types();
    lemma_chunk_words();
    let call_id = event.field("item"@)->0.text_field("call_id"@);
    let item_id = event.field("item"@)->0.text_field("id"@);
    lemma_fresh_id(calls, call_id, item_id);
}

/// The id of a tool call with new ids.
pub(crate) proof fn lemma_fresh_id(
    calls: ToolCalls,
    first: Option<Seq<char>>,
    second: Option<Seq<char>>,
)
    requires
        first is Some ==> !calls.aliases.dom().contains(first->0),
        second is Some ==> !calls.aliases.dom().contains(second->0),
    ensures
        ({
            let first_serves = is_filled(first) && encode_utf8(first->0).len() <= 40;
            let second_serves = is_filled(second) && encode_utf8(second->0).len() <= 40;
            let ids = usable_ids(first, second);
            &&& known_alias(calls.aliases, ids) is None
            &&& first_serves ==> client_id(calls.aliases, ids) == first->0
            &&& !first_serves && second_serves ==> client_id(calls.aliases, ids) == second->0
        }),
{
    let ids = usable_ids(first, second);
    reveal_with_fuel(known_alias, 3);
    reveal_with_fuel(first_fitting, 3);
    if is_filled(first) && is_filled(second) {
        assert(ids.drop_first() =~= seq![second->0]);
        assert(seq![second->0].drop_first() =~= Seq::empty());
    } else if ids.len() == 1 {
        assert(ids.drop_first() =~= Seq::empty());
    }
}

/// Every bit of the arguments of a tool call is told as it came, whatever has come before.
pub proof fn law_arguments_are_told(event: JsonTree, calls: ToolCalls)
    requires
        brings_arguments(event.text_field("type"@)),
        event.text_field("delta"@) is Some,
    ensures
        ({
            let step = event_step(event, calls).0;
            &&& tells_one_call(step)
            &&& told_function(step, "arguments"@) == event.text_field("delta"@)
            &&& forall|key: Seq<char>|
                key != "index"@ && key != "function"@ ==> #[trigger] told_call(step).field(
                    key,
                ) is None
            &&& forall|key: Seq<char>|
                key != "arguments"@ ==> #[trigger] told_function(step, key) is None
            &&& event.integer_field("output_index"@) is Some ==> told_place(step) == Some(
                JsonTree::Number(number_of_signed(event.integer_field("output_index"@)->0)),
            )
        }),
{
    lemma_event_types();
    lemma_chunk_words();
}

/// Where a run of events leads.
pub open spec fn calls_behind(events: Seq<JsonTree>, calls: ToolCalls) -> ToolCalls
    decreases events.len(),
{
    if events.len() == 0 {
        calls
    } else {
        event_step(events.last(), calls_behind(events.drop_last(), calls)).1
    }
}

/// Whether an event brings arguments for an item, by bits or as a whole.
pub open spec fn is_for_item(event: JsonTree, item: Seq<char>) -> bool {
    &&& brings_arguments(event.text_field("type"@)) || ends_arguments(event.text_field("type"@))
    &&& event.text_field("item_id"@) == Some(item)
}

/// The arguments of an item that a run of events has the client told, put together.
pub open spec fn arguments_told(events: Seq<JsonTree>, calls: ToolCalls, item: Seq<char>) -> Seq<
    char,
>
    decreases events.len(),
{
    if events.len() == 0 {
        Seq::empty()
    } else {
        let before = arguments_told(events.drop_last(), calls, item);
        let step = event_step(events.last(), calls_behind(events.drop_last(), calls)).0;
        if is_for_item(events.last(), item) && step is Some {
            before + told_function(step, "arguments"@)->0
        } else {
            before
        }
    }
}

/// The arguments of an item that the upstream sends bit by bit, put together.
pub open spec fn arguments_sent(events: Seq<JsonTree>, item: Seq<char>) -> Seq<char>
    decreases events.len(),
{
    if events.len() == 0 {
        Seq::empty()
    } else {
        let before = arguments_sent(events.drop_last(), item);
        let event = events.last();
        if brings_arguments(event.text_field("type"@)) && event.text_field("item_id"@) == Some(item)
            && event.text_field("delta"@) is Some {
            before + event.text_field("delta"@)->0
        } else {
            before
        }
    }
}

/// Whether the arguments of an item come bit by bit: a bit of them comes before any event with
/// them as a whole.
pub open spec fn comes_in_bits(events: Seq<JsonTree>, item: Seq<char>) -> bool
    decreases events.len(),
{
    if events.len() == 0 {
        true
    } else {
        &&& comes_in_bits(events.drop_last(), item)
        &&& ends_arguments(events.last().text_field("type"@)) && events.last().text_field(
            "item_id"@,
        ) == Some(item) ==> has_bits(events.drop_last(), item)
    }
}

/// Whether a bit of the arguments of an item is among a run of events.
pub open spec fn has_bits(events: Seq<JsonTree>, item: Seq<char>) -> bool {
    exists|i: int|
        0 <= i < events.len() && brings_arguments((#[trigger] events[i]).text_field("type"@))
            && events[i].text_field("item_id"@) == Some(item) && events[i].text_field(
            "delta"@,
        ) is Some
}

/// What a client puts together as the arguments of a tool call is what the upstream sent bit by
/// bit, each bit once and in order. The whole arguments that follow are not told again.
pub proof fn law_arguments_are_put_together(
    events: Seq<JsonTree>,
    calls: ToolCalls,
    item: Seq<char>,
)
    requires
        comes_in_bits(events, item),
    ensures
        arguments_told(events, calls, item) == arguments_sent(events, item),
    decreases events.len(),
{
    if events.len() > 0 {
        let fewer = events.drop_last();
        law_arguments_are_put_together(fewer, calls, item);
        let event = events.last();
        let before = calls_behind(fewer, calls);
        lemma_event_types();
        if is_for_item(event, item) {
            if brings_arguments(event.text_field("type"@)) {
                if event.text_field("delta"@) is Some {
                    law_arguments_are_told(event, before);
                }
            } else {
                lemma_bits_are_noted(fewer, calls, item);
            }
        }
    }
}

/// The items whose arguments came bit by bit are noted.
proof fn lemma_bits_are_noted(events: Seq<JsonTree>, calls: ToolCalls, item: Seq<char>)
    ensures
        has_bits(events, item) || calls.streamed.contains(item) ==> calls_behind(
            events,
            calls,
        ).streamed.contains(item),
    decreases events.len(),
{
    if events.len() > 0 {
        let fewer = events.drop_last();
        let event = events.last();
        lemma_event_types();
        lemma_bits_are_noted(fewer, calls, item);
        if has_bits(events, item) {
            let at = choose|i: int|
                0 <= i < events.len() && brings_arguments(
                    (#[trigger] events[i]).text_field("type"@),
                ) && events[i].text_field("item_id"@) == Some(item) && events[i].text_field(
                    "delta"@,
                ) is Some;
            if at < fewer.len() {
                assert(fewer[at] == events[at]);
                assert(has_bits(fewer, item));
            }
        }
    }
}

/// The first of two texts that is there, or else a third.
pub open spec fn first_of(
    first: Option<Seq<char>>,
    second: Option<Seq<char>>,
    other: Option<Seq<char>>,
) -> Option<Seq<char>> {
    if first is Some {
        first
    } else if second is Some {
        second
    } else {
        other
    }
}

/// What an event says of the item that it is about.
pub open spec fn of_item(event: JsonTree, key: Seq<char>) -> Option<Seq<char>> {
    match event.field("item"@) {
        Some(item) => item.text_field(key),
        None => None,
    }
}

/// The id of the item that an event with whole arguments is about.
pub open spec fn item_named(event: JsonTree) -> Option<Seq<char>> {
    first_of(event.text_field("item_id"@), of_item(event, "id"@), None)
}

/// The whole arguments that an event brings.
pub open spec fn arguments_named(event: JsonTree) -> Option<Seq<char>> {
    first_of(
        event.text_field("arguments"@),
        event.text_field("input"@),
        first_of(of_item(event, "arguments"@), of_item(event, "input"@), None),
    )
}

/// Whole arguments are not told where they were told bit by bit, where there are none, or where
/// nothing says which item they are for.
pub proof fn law_arguments_are_not_told_twice(event: JsonTree, calls: ToolCalls)
    requires
        ends_arguments(event.text_field("type"@)),
        item_named(event) is None || calls.streamed.contains(item_named(event)->0) || !is_filled(
            arguments_named(event),
        ),
    ensures
        event_step(event, calls) == (None::<JsonTree>, calls),
{
    lemma_event_types();
    lemma_chunk_words();
}

/// A bit of arguments that says neither its place nor an item that is known is told at the first
/// place.
pub proof fn law_unknown_place_is_the_first(event: JsonTree, calls: ToolCalls)
    requires
        brings_arguments(event.text_field("type"@)),
        event.text_field("delta"@) is Some,
        event.integer_field("output_index"@) is None,
        event.text_field("item_id"@) is Some ==> !calls.indexes.dom().contains(
            event.text_field("item_id"@)->0,
        ),
    ensures
        told_place(event_step(event, calls).0) == Some(JsonTree::Number(number_of_signed(0))),
{
    lemma_event_types();
    lemma_chunk_words();
}

/// Of what is known of tool calls, an event changes only what it says: a bit of arguments is noted
/// for its item, and arguments as a whole leave that alone. The ids that are known to the client
/// stay known.
pub proof fn law_events_change_what_they_say(event: JsonTree, calls: ToolCalls, id: Seq<char>)
    ensures
        ({
            let after = event_step(event, calls).1;
            let kind = event.text_field("type"@);
            let noted = brings_arguments(kind) && event.text_field("delta"@) is Some
                && event.text_field("item_id"@) == Some(id);
            &&& after.streamed.contains(id) <==> calls.streamed.contains(id) || noted
            &&& brings_arguments(kind) ==> after.aliases == calls.aliases && after.indexes
                == calls.indexes
            &&& kind != Some("response.output_item.added"@) || event.integer_field(
                "output_index"@,
            ) is Some ==> after.next_index == calls.next_index
        }),
{
    lemma_event_types();
}

/// The ids of a tool call that an event is about.
pub open spec fn is_id_of(event: JsonTree, id: Seq<char>) -> bool {
    of_item(event, "call_id"@) == Some(id) || of_item(event, "id"@) == Some(id)
        || event.text_field("item_id"@) == Some(id)
}

/// A tool call does not disturb the others: an id that it does not have is known to the client as
/// it was before, or not known as before.
pub proof fn law_calls_do_not_disturb_each_other(event: JsonTree, calls: ToolCalls, id: Seq<char>)
    requires
        !is_id_of(event, id),
    ensures
        ({
            let after = event_step(event, calls).1;
            &&& after.aliases.dom().contains(id) == calls.aliases.dom().contains(id)
            &&& after.aliases[id] == calls.aliases[id]
            &&& after.indexes.dom().contains(id) == calls.indexes.dom().contains(id)
            &&& after.indexes[id] == calls.indexes[id]
        }),
{
    lemma_event_types();
    let item = match event.field("item"@) {
        Some(item) => item,
        None => JsonTree::Null,
    };
    let begun = usable_ids(item.text_field("call_id"@), item.text_field("id"@));
    let ended = usable_ids(
        item.text_field("call_id"@),
        first_of(event.text_field("item_id"@), item.text_field("id"@), None),
    );
    assert(!begun.contains(id));
    assert(!ended.contains(id));
    lemma_alias_untouched(calls.aliases, begun, client_id(calls.aliases, begun), id);
    lemma_alias_untouched(calls.aliases, ended, client_id(calls.aliases, ended), id);
}

/// A tool call with new ids that are all longer than 40 bytes is known by a short one that is made
/// from the first of them: 39 digits of its digest behind a letter.
pub proof fn law_long_ids_are_shortened(event: JsonTree, calls: ToolCalls)
    requires
        event.text_field("type"@) == Some("response.output_item.added"@),
        event.field("item"@) is Some,
        item_calls(event.field("item"@)->0),
        ({
            let call_id = of_item(event, "call_id"@);
            let item_id = of_item(event, "id"@);
            &&& is_filled(call_id)
            &&& encode_utf8(call_id->0).len() > 40
            &&& !calls.aliases.dom().contains(call_id->0)
            &&& item_id is Some ==> !calls.aliases.dom().contains(item_id->0) && (
            item_id->0.len() == 0 || encode_utf8(item_id->0).len() > 40)
        }),
    ensures
        told_call(event_step(event, calls).0).text_field("id"@) == Some(
            "c"@ + sha256_text(encode_utf8(of_item(event, "call_id"@)->0)).take(39),
        ),
{
    lemma_event_types();
    lemma_chunk_words();
    let first = of_item(event, "call_id"@);
    let second = of_item(event, "id"@);
    lemma_fresh_id(calls, first, second);
    let ids = usable_ids(first, second);
    reveal_with_fuel(first_fitting, 3);
    if is_filled(second) {
        assert(ids.drop_first() =~= seq![second->0]);
        assert(seq![second->0].drop_first() =~= Seq::empty());
    } else {
        assert(ids.drop_first() =~= Seq::empty());
    }
}

/// A tool call that was told of is known from then on, by each of its ids: under the id that was
/// told, and at the place that was told.
pub proof fn law_told_calls_are_known(event: JsonTree, calls: ToolCalls, id: Seq<char>)
    requires
        event.text_field("type"@) == Some("response.output_item.added"@) && (of_item(
            event,
            "call_id"@,
        ) == Some(id) || of_item(event, "id"@) == Some(id)) || ends_arguments(
            event.text_field("type"@),
        ) && (of_item(event, "call_id"@) == Some(id) || item_named(event) == Some(id)),
        id.len() > 0,
        event_step(event, calls).0 is Some,
    ensures
        ({
            let (step, after) = event_step(event, calls);
            &&& after.aliases.dom().contains(id)
            &&& told_call(step).text_field("id"@) == Some(after.aliases[id])
            &&& !ends_arguments(event.text_field("type"@)) || item_named(event) == Some(id)
                ==> after.indexes.dom().contains(id) && told_place(step) == Some(
                JsonTree::Number(number_of_signed(after.indexes[id])),
            )
        }),
{
    lemma_event_types();
    lemma_chunk_words();
    let call_id = of_item(event, "call_id"@);
    let begun = usable_ids(call_id, of_item(event, "id"@));
    let ended = usable_ids(call_id, item_named(event));
    if ends_arguments(event.text_field("type"@)) {
        lemma_usable(call_id, item_named(event), id);
        lemma_with_alias(calls.aliases, ended, client_id(calls.aliases, ended), id);
    } else {
        lemma_usable(call_id, of_item(event, "id"@), id);
        lemma_with_alias(calls.aliases, begun, client_id(calls.aliases, begun), id);
    }
}

proof fn lemma_usable(first: Option<Seq<char>>, second: Option<Seq<char>>, id: Seq<char>)
    requires
        first == Some(id) || second == Some(id),
        id.len() > 0,
    ensures
        usable_ids(first, second).contains(id),
{
    let ids = usable_ids(first, second);
    if first == Some(id) {
        assert(ids[0] == id);
    } else {
        assert(ids.last() == id);
    }
}

/// Clients take ids of tool calls of up to 40 bytes.
pub proof fn law_ids_have_a_limit()
    ensures
        CURSOR_MAX_TOOL_CALL_ID_LEN == 40,
{
}

/// Arguments that come as a whole only are told as a whole, with the name of the tool, and
/// with an id for the call.
pub proof fn law_whole_arguments_are_told(event: JsonTree, calls: ToolCalls)
    requires
        ends_arguments(event.text_field("type"@)),
        is_filled(item_named(event)),
        !calls.streamed.contains(item_named(event)->0),
        is_filled(arguments_named(event)),
    ensures
        ({
            let step = event_step(event, calls).0;
            &&& tells_one_call(step)
            &&& is_whole_call(told_call(step))
            &&& told_function(step, "name"@) == first_of(
                event.text_field("name"@),
                of_item(event, "name"@),
                Some("custom_tool"@),
            )
            &&& told_function(step, "arguments"@) == arguments_named(event)
            &&& event.integer_field("output_index"@) is Some ==> told_place(step) == Some(
                JsonTree::Number(number_of_signed(event.integer_field("output_index"@)->0)),
            )
        }),
{
    lemma_event_types();
    lemma_chunk_words();
}

/// A bit of arguments is told at the place that its tool call was given when it began, by
/// whichever of the ids of the call it comes.
pub proof fn law_arguments_keep_their_place(
    begun: JsonTree,
    event: JsonTree,
    calls: ToolCalls,
)
    requires
        begun.text_field("type"@) == Some("response.output_item.added"@),
        begun.field("item"@) is Some,
        tells_one_call(event_step(begun, calls).0),
        brings_arguments(event.text_field("type"@)),
        event.text_field("delta"@) is Some,
        event.integer_field("output_index"@) is None,
        is_filled(event.text_field("item_id"@)),
        event.text_field("item_id"@) == begun.field("item"@)->0.text_field("id"@)
            || event.text_field("item_id"@) == begun.field("item"@)->0.text_field("call_id"@),
    ensures
        told_place(event_step(event, event_step(begun, calls).1).0) == told_place(
            event_step(begun, calls).0,
        ),
{
    lemma_event_types();
    lemma_chunk_words();
}

/// Tool calls that begin without a place are given one place after the other.
pub proof fn law_places_follow_each_other(first: JsonTree, second: JsonTree, calls: ToolCalls)
    requires
        first.text_field("type"@) == Some("response.output_item.added"@),
        second.text_field("type"@) == Some("response.output_item.added"@),
        first.integer_field("output_index"@) is None,
        second.integer_field("output_index"@) is None,
        tells_one_call(event_step(first, calls).0),
        tells_one_call(event_step(second, event_step(first, calls).1).0),
        calls.next_index < i64::MAX,
    ensures
        told_place(event_step(first, calls).0) == Some(
            JsonTree::Number(number_of_signed(calls.next_index)),
        ),
        told_place(event_step(second, event_step(first, calls).1).0) == Some(
            JsonTree::Number(number_of_signed((calls.next_index + 1) as i64)),
        ),
{
    lemma_event_types();
    lemma_chunk_words();
}

/// A tool call that comes as a whole after it has begun is told under the id that it began with.
pub proof fn law_whole_call_keeps_its_id(begun: JsonTree, event: JsonTree, calls: ToolCalls)
    requires
        begun.text_field("type"@) == Some("response.output_item.added"@),
        begun.field("item"@) is Some,
        tells_one_call(event_step(begun, calls).0),
        ends_arguments(event.text_field("type"@)),
        is_filled(event.text_field("item_id"@)),
        event.text_field("item_id"@) == begun.field("item"@)->0.text_field("id"@),
        of_item(event, "call_id"@) is None || of_item(event, "call_id"@)
            == begun.field("item"@)->0.text_field("call_id"@),
        event_step(event, event_step(begun, calls).1).0 is Some,
    ensures
        told_call(event_step(event, event_step(begun, calls).1).0).text_field("id"@) == told_call(
            event_step(begun, calls).0,
        ).text_field("id"@),
{
    lemma_event_types();
    lemma_chunk_words();
    let item = begun.field("item"@)->0;
    let ids = usable_ids(item.text_field("call_id"@), item.text_field("id"@));
    let later = usable_ids(of_item(event, "call_id"@), event.text_field("item_id"@));
    assert(later.len() > 0);
    assert(ids.contains(later[0])) by {
        if is_filled(item.text_field("call_id"@)) {
            assert(ids[0] == item.text_field("call_id"@)->0);
            assert(ids[1] == item.text_field("id"@)->0);
        } else {
            assert(ids[0] == item.text_field("id"@)->0);
        }
    }
    law_tool_call_keeps_its_id(calls, ids, later, 0);
}

} // verus!
