use vstd::prelude::*;
use vstd::utf8::*;

use crate::json::{
    group_json, no_fields, one_item, opt_json, print_json, Json, JsonObject, JsonTree,
};
use crate::serde_bridge::{number_of_signed, printed};
use crate::streaming::sse::{is_line, law_frame_is_read_back, stream_events};
use crate::streaming::tool_calls::{
    aliases_fit, client_id, index_after, known_index, lemma_usable_of_two, told_ids_fit,
    usable_ids, with_client_id, with_index, with_streamed, ToolCalls, ToolStreamState,
};
use crate::text::{concat, opt_string, opt_text, same_text, text_or};

verus! {

broadcast use group_json;

/// A chunk of a chat completion: one step of the answer, and why it ended if it did.
pub open spec fn chat_chunk(
    chunk_id: Seq<char>,
    created: i64,
    model: Seq<char>,
    delta: JsonTree,
    finish_reason: JsonTree,
) -> JsonTree {
    let choice = JsonTree::Object(
        no_fields().insert("index"@, JsonTree::Number(number_of_signed(0))).insert(
            "delta"@,
            delta,
        ).insert("finish_reason"@, finish_reason),
    );
    JsonTree::Object(
        no_fields().insert("id"@, JsonTree::Text(chunk_id)).insert(
            "object"@,
            JsonTree::Text("chat.completion.chunk"@),
        ).insert("created"@, JsonTree::Number(number_of_signed(created))).insert(
            "model"@,
            JsonTree::Text(model),
        ).insert("choices"@, JsonTree::List(seq![choice])),
    )
}

/// A value as one frame of a server-sent event stream.
pub open spec fn data_line(value: JsonTree) -> Seq<char> {
    "data: "@ + printed(value) + "\n\n"@
}

/// A value as one frame of a server-sent event stream.
pub fn make_data_line(value: &Json) -> (line: String)
    ensures
        line@ == data_line(value@),
        stream_events(encode_utf8(line@)) == (seq![printed(value@)], Seq::<u8>::empty()),
{
    let text = print_json(value);
    proof {
        assert(is_line(text@));
        law_frame_is_read_back(text@);
    }
    let start = concat("data: ", text.as_str());
    concat(start.as_str(), "\n\n")
}

/// One frame with a chunk of a chat completion.
pub fn chat_chunk_line(
    chunk_id: &str,
    created: i64,
    model: &str,
    delta: Json,
    finish_reason: Json,
) -> (line: String)
    ensures
        line@ == data_line(chat_chunk(chunk_id@, created, model@, delta@, finish_reason@)),
        stream_events(encode_utf8(line@)).0 == seq![
            printed(chat_chunk(chunk_id@, created, model@, delta@, finish_reason@)),
        ],
{
    let choice = Json::Object(
        JsonObject::new().with("index", Json::integer(0)).with("delta", delta).with(
            "finish_reason",
            finish_reason,
        ),
    );
    let chunk = Json::Object(
        JsonObject::new().with("id", Json::text(chunk_id)).with(
            "object",
            Json::text("chat.completion.chunk"),
        ).with("created", Json::integer(created)).with("model", Json::text(model)).with(
            "choices",
            Json::List(one_item(choice)),
        ),
    );
    make_data_line(&chunk)
}

/// A step of the answer that is one text under one key.
pub open spec fn text_step(key: Seq<char>, text: Seq<char>) -> JsonTree {
    JsonTree::Object(no_fields().insert(key, JsonTree::Text(text)))
}

/// The step of an event that carries a bit of text.
pub open spec fn delta_step(event: JsonTree, key: Seq<char>) -> Option<JsonTree> {
    match event.text_field("delta"@) {
        Some(delta) => Some(text_step(key, delta)),
        None => None,
    }
}

/// The step of an event that begins a part of a message: a refusal, told as one.
pub open spec fn part_step(event: JsonTree) -> Option<JsonTree> {
    match event.field("part"@) {
        Some(part) => if part.text_field("type"@) == Some("refusal"@) {
            Some(text_step("refusal"@, text_or(part.text_field("refusal"@), ""@)))
        } else {
            None
        },
        None => None,
    }
}

/// A step of the answer with one tool call.
pub open spec fn calls_step(call: JsonTree) -> JsonTree {
    JsonTree::Object(no_fields().insert("tool_calls"@, JsonTree::List(seq![call])))
}

/// A tool call as a chunk tells of it first.
pub open spec fn whole_call(
    index: i64,
    id: Seq<char>,
    name: Seq<char>,
    arguments: Seq<char>,
) -> JsonTree {
    JsonTree::Object(
        no_fields().insert("index"@, JsonTree::Number(number_of_signed(index))).insert(
            "id"@,
            JsonTree::Text(id),
        ).insert("type"@, JsonTree::Text("function"@)).insert(
            "function"@,
            JsonTree::Object(
                no_fields().insert("name"@, JsonTree::Text(name)).insert(
                    "arguments"@,
                    JsonTree::Text(arguments),
                ),
            ),
        ),
    )
}

/// More of the arguments of a tool call.
pub open spec fn more_arguments(index: i64, arguments: Seq<char>) -> JsonTree {
    JsonTree::Object(
        no_fields().insert("index"@, JsonTree::Number(number_of_signed(index))).insert(
            "function"@,
            JsonTree::Object(no_fields().insert("arguments"@, JsonTree::Text(arguments))),
        ),
    )
}

/// Whether an output item is a tool call.
pub open spec fn is_tool_call(item: JsonTree) -> bool {
    let kind = item.text_field("type"@);
    kind == Some("function_call"@) || kind == Some("custom_tool_call"@)
}

/// What an event that begins a tool call tells, and the state behind it.
pub open spec fn call_begun(event: JsonTree, calls: ToolCalls) -> (Option<JsonTree>, ToolCalls) {
    match event.field("item"@) {
        Some(item) => {
            let item_id = item.text_field("id"@);
            let call_id = item.text_field("call_id"@);
            let ids = usable_ids(call_id, item_id);
            if !is_tool_call(item) || ids.len() == 0 {
                (None, calls)
            } else {
                let id = client_id(calls.aliases, ids);
                let named = with_client_id(calls, ids);
                let (index, placed) = match event.integer_field("output_index"@) {
                    Some(index) => (index, named),
                    None => (
                        named.next_index,
                        ToolCalls { next_index: index_after(named.next_index), ..named },
                    ),
                };
                let name = text_or(item.text_field("name"@), "custom_tool"@);
                (
                    Some(calls_step(whole_call(index, id, name, ""@))),
                    with_index(with_index(placed, item_id, index), call_id, index),
                )
            }
        },
        None => (None, calls),
    }
}

/// The place of the item that an event is about: its own word, or what is known, or the first.
pub open spec fn event_index(event: JsonTree, calls: ToolCalls, id: Option<Seq<char>>) -> i64 {
    match event.integer_field("output_index"@) {
        Some(index) => index,
        None => match id {
            Some(id) => match known_index(calls, id) {
                Some(index) => index,
                None => 0,
            },
            None => 0,
        },
    }
}

/// What an event with a bit of the arguments of a tool call tells, and the state behind it.
pub open spec fn arguments_arrived(event: JsonTree, calls: ToolCalls) -> (
    Option<JsonTree>,
    ToolCalls,
) {
    let id = event.text_field("item_id"@);
    match event.text_field("delta"@) {
        Some(delta) => (
            Some(calls_step(more_arguments(event_index(event, calls, id), delta))),
            with_streamed(calls, id),
        ),
        None => (None, calls),
    }
}

/// The first of two texts that is there.
pub open spec fn either_text(first: Option<Seq<char>>, second: Option<Seq<char>>) -> Option<
    Seq<char>,
> {
    match first {
        Some(text) => Some(text),
        None => second,
    }
}

/// What an event with the whole arguments of a tool call tells, and the state behind it.
/// Nothing is told where the arguments have arrived bit by bit before.
pub open spec fn arguments_complete(event: JsonTree, calls: ToolCalls) -> (
    Option<JsonTree>,
    ToolCalls,
) {
    let item = match event.field("item"@) {
        Some(item) => item,
        None => JsonTree::Null,
    };
    let id = either_text(event.text_field("item_id"@), item.text_field("id"@));
    let call_id = item.text_field("call_id"@);
    let own = either_text(event.text_field("arguments"@), event.text_field("input"@));
    let nested = either_text(item.text_field("arguments"@), item.text_field("input"@));
    let arguments = text_or(either_text(own, nested), ""@);
    let ids = usable_ids(call_id, id);
    if arguments.len() == 0 || id is None || calls.streamed.contains(id->0) {
        (None, calls)
    } else {
        let index = event_index(event, calls, id);
        let placed = with_index(calls, id, index);
        if ids.len() == 0 {
            (None, placed)
        } else {
            let name = text_or(
                either_text(event.text_field("name"@), item.text_field("name"@)),
                "custom_tool"@,
            );
            (
                Some(
                    calls_step(
                        whole_call(index, client_id(placed.aliases, ids), name, arguments),
                    ),
                ),
                with_client_id(placed, ids),
            )
        }
    }
}

/// The step of the answer that an event of the upstream makes, and the state behind it.
pub open spec fn event_step(event: JsonTree, calls: ToolCalls) -> (Option<JsonTree>, ToolCalls) {
    let kind = event.text_field("type"@);
    if kind == Some("response.output_text.delta"@) {
        (delta_step(event, "content"@), calls)
    } else if kind == Some("response.reasoning_summary_text.delta"@) || kind == Some(
        "response.reasoning_text.delta"@,
    ) {
        (delta_step(event, "reasoning_content"@), calls)
    } else if kind == Some("response.content_part.added"@) {
        (part_step(event), calls)
    } else if kind == Some("response.output_item.added"@) {
        call_begun(event, calls)
    } else if kind == Some("response.function_call_arguments.delta"@) || kind == Some(
        "response.custom_tool_call_input.delta"@,
    ) {
        arguments_arrived(event, calls)
    } else if kind == Some("response.function_call_arguments.done"@) || kind == Some(
        "response.custom_tool_call_input.done"@,
    ) {
        arguments_complete(event, calls)
    } else {
        (None, calls)
    }
}

/// The frame that an event of the upstream makes, and the state behind it.
pub open spec fn event_line(
    event: JsonTree,
    calls: ToolCalls,
    chunk_id: Seq<char>,
    created: i64,
    model: Seq<char>,
) -> (Option<Seq<char>>, ToolCalls) {
    let (step, behind) = event_step(event, calls);
    match step {
        Some(delta) => (
            Some(data_line(chat_chunk(chunk_id, created, model, delta, JsonTree::Null))),
            behind,
        ),
        None => (None, behind),
    }
}

fn make_delta_step(event: &Json, key: &str) -> (step: Option<Json>)
    ensures
        opt_json(step) == delta_step(event@, key@),
{
    match event.text_field("delta") {
        Some(delta) => Some(Json::Object(JsonObject::new().with(key, Json::text(delta)))),
        None => None,
    }
}

fn make_part_step(event: &Json) -> (step: Option<Json>)
    ensures
        opt_json(step) == part_step(event@),
{
    let part = match event.get("part") {
        Some(part) => part,
        None => {
            return None;
        },
    };
    match part.text_field("type") {
        Some(kind) => if same_text(kind, "refusal") {
            let refusal = match part.text_field("refusal") {
                Some(refusal) => refusal,
                None => "",
            };
            Some(Json::Object(JsonObject::new().with("refusal", Json::text(refusal))))
        } else {
            None
        },
        None => None,
    }
}

fn make_calls_step(call: Json) -> (step: Json)
    ensures
        step@ == calls_step(call@),
{
    Json::Object(JsonObject::new().with("tool_calls", Json::List(one_item(call))))
}

fn make_whole_call(index: i64, id: &str, name: &str, arguments: &str) -> (call: Json)
    ensures
        call@ == whole_call(index, id@, name@, arguments@),
{
    let function = JsonObject::new().with("name", Json::text(name)).with(
        "arguments",
        Json::text(arguments),
    );
    Json::Object(
        JsonObject::new().with("index", Json::integer(index)).with("id", Json::text(id)).with(
            "type",
            Json::text("function"),
        ).with("function", Json::Object(function)),
    )
}

/// What tells the names in a step of the answer apart.
proof fn lemma_step_names()
    ensures
        "id"@.len() == 2,
        "type"@.len() == 4,
        "index"@.len() == 5,
        "function"@.len() == 8,
{
    reveal_strlit("id");
    reveal_strlit("type");
    reveal_strlit("index");
    reveal_strlit("function");
}

/// Whether an output item is a tool call.
pub(crate) fn item_is_tool_call(item: &Json) -> (answer: bool)
    ensures
        answer == is_tool_call(item@),
{
    match item.text_field("type") {
        Some(kind) => same_text(kind, "function_call") || same_text(kind, "custom_tool_call"),
        None => false,
    }
}

fn begin_call(event: &Json, state: &mut ToolStreamState) -> (step: Option<Json>)
    ensures
        (opt_json(step), final(state)@) == call_begun(event@, old(state)@),
        aliases_fit(old(state)@) ==> aliases_fit(final(state)@),
        aliases_fit(old(state)@) && step is Some ==> told_ids_fit(step->0@),
{
    let item = match event.get("item") {
        Some(item) => item,
        None => {
            return None;
        },
    };
    if !item_is_tool_call(item) {
        return None;
    }
    let item_id = item.text_field("id");
    let call_id = item.text_field("call_id");
    let raw_ids = [call_id, item_id];
    proof {
        lemma_usable_of_two(raw_ids@);
    }
    let id = match state.ensure_cursor_tool_call_id(&raw_ids) {
        Some(id) => id,
        None => {
            return None;
        },
    };
    let index = match event.integer_field("output_index") {
        Some(index) => index,
        None => state.take_index(),
    };
    if let Some(item_id) = item_id {
        state.note_index(item_id, index);
    }
    if let Some(call_id) = call_id {
        state.note_index(call_id, index);
    }
    let name = match item.text_field("name") {
        Some(name) => name,
        None => "custom_tool",
    };
    proof {
        lemma_step_names();
    }
    Some(make_calls_step(make_whole_call(index, id.as_str(), name, "")))
}

fn find_index(event: &Json, state: &ToolStreamState, id: Option<&str>) -> (index: i64)
    ensures
        index == event_index(event@, state@, opt_text(id)),
{
    if let Some(index) = event.integer_field("output_index") {
        return index;
    }
    match id {
        Some(id) => match state.index_of(id) {
            Some(index) => index,
            None => 0,
        },
        None => 0,
    }
}

fn take_arguments(event: &Json, state: &mut ToolStreamState) -> (step: Option<Json>)
    ensures
        (opt_json(step), final(state)@) == arguments_arrived(event@, old(state)@),
        aliases_fit(old(state)@) ==> aliases_fit(final(state)@),
        aliases_fit(old(state)@) && step is Some ==> told_ids_fit(step->0@),
{
    let delta = match event.text_field("delta") {
        Some(delta) => delta,
        None => {
            return None;
        },
    };
    let id = event.text_field("item_id");
    let index = find_index(event, state, id);
    if let Some(id) = id {
        state.note_streamed(id);
    }
    proof {
        lemma_step_names();
    }
    let function = JsonObject::new().with("arguments", Json::text(delta));
    let call = Json::Object(
        JsonObject::new().with("index", Json::integer(index)).with(
            "function",
            Json::Object(function),
        ),
    );
    Some(make_calls_step(call))
}

fn pick<'a>(first: Option<&'a str>, second: Option<&'a str>) -> (text: Option<&'a str>)
    ensures
        opt_text(text) == either_text(opt_text(first), opt_text(second)),
{
    match first {
        Some(text) => Some(text),
        None => second,
    }
}

fn complete_arguments(event: &Json, state: &mut ToolStreamState) -> (step: Option<Json>)
    ensures
        (opt_json(step), final(state)@) == arguments_complete(event@, old(state)@),
        aliases_fit(old(state)@) ==> aliases_fit(final(state)@),
        aliases_fit(old(state)@) && step is Some ==> told_ids_fit(step->0@),
{
    let nothing = Json::Null;
    let item = match event.get("item") {
        Some(item) => item,
        None => &nothing,
    };
    let call_id = item.text_field("call_id");
    let own = pick(event.text_field("arguments"), event.text_field("input"));
    let nested = pick(item.text_field("arguments"), item.text_field("input"));
    let arguments = match pick(own, nested) {
        Some(arguments) => arguments,
        None => "",
    };
    if arguments.is_empty() {
        return None;
    }
    let id = match pick(event.text_field("item_id"), item.text_field("id")) {
        Some(id) => id,
        None => {
            return None;
        },
    };
    if state.has_streamed(id) {
        return None;
    }
    let index = find_index(event, state, Some(id));
    state.note_index(id, index);
    let raw_ids = [call_id, Some(id)];
    proof {
        lemma_usable_of_two(raw_ids@);
    }
    let known = match state.ensure_cursor_tool_call_id(&raw_ids) {
        Some(known) => known,
        None => {
            return None;
        },
    };
    let name = match pick(event.text_field("name"), item.text_field("name")) {
        Some(name) => name,
        None => "custom_tool",
    };
    proof {
        lemma_step_names();
    }
    Some(make_calls_step(make_whole_call(index, known.as_str(), name, arguments)))
}

fn step_of_event(event: &Json, state: &mut ToolStreamState) -> (step: Option<Json>)
    ensures
        (opt_json(step), final(state)@) == event_step(event@, old(state)@),
        aliases_fit(old(state)@) ==> aliases_fit(final(state)@),
        aliases_fit(old(state)@) && step is Some ==> told_ids_fit(step->0@),
{
    let kind = match event.text_field("type") {
        Some(kind) => kind,
        None => {
            return None;
        },
    };
    if same_text(kind, "response.output_text.delta") {
        make_delta_step(event, "content")
    } else if same_text(kind, "response.reasoning_summary_text.delta") || same_text(
        kind,
        "response.reasoning_text.delta",
    ) {
        make_delta_step(event, "reasoning_content")
    } else if same_text(kind, "response.content_part.added") {
        make_part_step(event)
    } else if same_text(kind, "response.output_item.added") {
        begin_call(event, state)
    } else if same_text(kind, "response.function_call_arguments.delta") || same_text(
        kind,
        "response.custom_tool_call_input.delta",
    ) {
        take_arguments(event, state)
    } else if same_text(kind, "response.function_call_arguments.done") || same_text(
        kind,
        "response.custom_tool_call_input.done",
    ) {
        complete_arguments(event, state)
    } else {
        None
    }
}

/// The frame of a chat completion stream that an event of the upstream makes, if any.
///
/// The upstream tells of a refusal by the part that it begins, never bit by bit. The frame tells
/// it as a refusal in the middle of the stream, as clients expect it.
pub fn map_response_event_to_chat_chunk(
    event: &Json,
    state: &mut ToolStreamState,
    chunk_id: &str,
    created: i64,
    model: &str,
) -> (line: Option<String>)
    ensures
        (opt_string(line), final(state)@) == event_line(
            event@,
            old(state)@,
            chunk_id@,
            created,
            model@,
        ),
        aliases_fit(old(state)@) ==> aliases_fit(final(state)@) && match event_step(
            event@,
            old(state)@,
        ).0 {
            Some(step) => told_ids_fit(step),
            None => true,
        },
{
    match step_of_event(event, state) {
        Some(delta) => Some(chat_chunk_line(chunk_id, created, model, delta, Json::Null)),
        None => None,
    }
}

} // verus!
