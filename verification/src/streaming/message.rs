use vstd::prelude::*;

use crate::json::{
    copy_list, group_json, list_trees, no_fields, opt_tree, Fields, Json, JsonObject, JsonTree,
};
use crate::seqs::flat;
use crate::streaming::chunks::{either_text, is_tool_call, item_is_tool_call};
use crate::streaming::tool_calls::{
    aliases_fit, call_id_fits, client_id, lemma_usable_of_two, no_tool_calls, told_ids_fit,
    usable_ids, with_client_id, ToolCalls, ToolStreamState,
};
use crate::text::{join, joined, same_text, text_or, texts};

verus! {

broadcast use group_json;

/// The parts of an output item that is a message.
pub open spec fn message_parts(item: JsonTree) -> Seq<JsonTree> {
    if item.text_field("type"@) == Some("message"@) {
        match item.list_field("content"@) {
            Some(parts) => parts,
            None => Seq::empty(),
        }
    } else {
        Seq::empty()
    }
}

/// `message_parts` as a function of the item.
pub open spec fn each_message_parts() -> spec_fn(JsonTree) -> Seq<JsonTree> {
    |item: JsonTree| message_parts(item)
}

/// The text that a part of one kind holds under a key.
pub open spec fn part_text(part: JsonTree, kind: Seq<char>, key: Seq<char>) -> Seq<Seq<char>> {
    if part.text_field("type"@) == Some(kind) {
        match part.text_field(key) {
            Some(text) => seq![text],
            None => Seq::empty(),
        }
    } else {
        Seq::empty()
    }
}

/// `part_text` as a function of the part.
pub open spec fn each_part_text(kind: Seq<char>, key: Seq<char>) -> spec_fn(JsonTree) -> Seq<
    Seq<char>,
> {
    |part: JsonTree| part_text(part, kind, key)
}

/// The annotations of a text part.
pub open spec fn part_annotations(part: JsonTree) -> Seq<JsonTree> {
    if part.text_field("type"@) == Some("output_text"@) {
        match part.list_field("annotations"@) {
            Some(annotations) => annotations,
            None => Seq::empty(),
        }
    } else {
        Seq::empty()
    }
}

/// `part_annotations` as a function of the part.
pub open spec fn each_part_annotations() -> spec_fn(JsonTree) -> Seq<JsonTree> {
    |part: JsonTree| part_annotations(part)
}

/// A tool call of a chat message.
pub open spec fn message_call(id: Seq<char>, item: JsonTree) -> JsonTree {
    JsonTree::Object(
        no_fields().insert("id"@, JsonTree::Text(id)).insert(
            "type"@,
            JsonTree::Text("function"@),
        ).insert(
            "function"@,
            JsonTree::Object(
                no_fields().insert(
                    "name"@,
                    JsonTree::Text(text_or(item.text_field("name"@), "custom_tool"@)),
                ).insert(
                    "arguments"@,
                    JsonTree::Text(
                        text_or(
                            either_text(item.text_field("arguments"@), item.text_field("input"@)),
                            ""@,
                        ),
                    ),
                ),
            ),
        ),
    )
}

/// The ids of a tool call among the output.
pub open spec fn item_ids(item: JsonTree) -> Seq<Seq<char>> {
    usable_ids(item.text_field("call_id"@), item.text_field("id"@))
}

/// The tool calls among the output, and the ids that were given out on the way.
pub open spec fn output_calls(items: Seq<JsonTree>) -> (Seq<JsonTree>, ToolCalls)
    decreases items.len(),
{
    if items.len() == 0 {
        (Seq::empty(), no_tool_calls())
    } else {
        let (found, calls) = output_calls(items.drop_last());
        let item = items.last();
        let ids = item_ids(item);
        if is_tool_call(item) && ids.len() > 0 {
            (
                found.push(message_call(client_id(calls.aliases, ids), item)),
                with_client_id(calls, ids),
            )
        } else {
            (found, calls)
        }
    }
}

/// What a message says: its texts, or else its refusals, or nothing.
pub open spec fn message_content(said: Seq<Seq<char>>, refused: Seq<Seq<char>>) -> JsonTree {
    if said.len() > 0 {
        JsonTree::Text(joined(said, ""@))
    } else if refused.len() > 0 {
        JsonTree::Text(joined(refused, ""@))
    } else {
        JsonTree::Null
    }
}

/// The fields with one more list, where it is not empty.
pub open spec fn with_list(fields: Fields, key: Seq<char>, items: Seq<JsonTree>) -> Fields {
    if items.len() > 0 {
        fields.insert(key, JsonTree::List(items))
    } else {
        fields
    }
}

/// The chat message that the items of an output make.
pub open spec fn chat_message(items: Seq<JsonTree>) -> JsonTree {
    let parts = flat(items, each_message_parts());
    let said = flat(parts, each_part_text("output_text"@, "text"@));
    let refused = flat(parts, each_part_text("refusal"@, "refusal"@));
    let spoken = no_fields().insert("role"@, JsonTree::Text("assistant"@)).insert(
        "content"@,
        message_content(said, refused),
    );
    let with_refusal = if refused.len() > 0 {
        spoken.insert("refusal"@, JsonTree::Text(joined(refused, ""@)))
    } else {
        spoken
    };
    let with_calls = with_list(with_refusal, "tool_calls"@, output_calls(items).0);
    JsonTree::Object(with_list(with_calls, "annotations"@, flat(parts, each_part_annotations())))
}

fn collect_parts(items: &Vec<Json>) -> (parts: Vec<Json>)
    ensures
        list_trees(parts@) == flat(list_trees(items@), each_message_parts()),
{
    let ghost all = list_trees(items@);
    let ghost give = each_message_parts();
    let mut parts: Vec<Json> = Vec::new();
    proof {
        assert(list_trees(parts@) =~= flat(all.take(0), give));
    }
    for i in 0..items.len()
        invariant
            all == list_trees(items@),
            give == each_message_parts(),
            list_trees(parts@) == flat(all.take(i as int), give),
    {
        proof {
            assert(all.take(i + 1).drop_last() =~= all.take(i as int));
        }
        let item = &items[i];
        let ghost before = parts@;
        let is_message = match item.text_field("type") {
            Some(kind) => same_text(kind, "message"),
            None => false,
        };
        if is_message {
            if let Some(content) = item.list_field("content") {
                let mut more = copy_list(content);
                let ghost added = more@;
                parts.append(&mut more);
                proof {
                    assert(list_trees(parts@) =~= list_trees(before) + list_trees(added));
                }
            }
        }
        proof {
            assert(list_trees(parts@) =~= list_trees(before) + message_parts(item@));
        }
    }
    proof {
        assert(all.take(all.len() as int) =~= all);
    }
    parts
}

fn collect_texts(parts: &Vec<Json>, kind: &str, key: &str) -> (found: Vec<String>)
    ensures
        texts(found@) == flat(list_trees(parts@), each_part_text(kind@, key@)),
{
    let ghost all = list_trees(parts@);
    let ghost give = each_part_text(kind@, key@);
    let mut found: Vec<String> = Vec::new();
    proof {
        assert(texts(found@) =~= flat(all.take(0), give));
    }
    for i in 0..parts.len()
        invariant
            all == list_trees(parts@),
            give == each_part_text(kind@, key@),
            texts(found@) == flat(all.take(i as int), give),
    {
        proof {
            assert(all.take(i + 1).drop_last() =~= all.take(i as int));
        }
        let part = &parts[i];
        let ghost before = found@;
        if let Some(own) = part.text_field("type") {
            if same_text(own, kind) {
                if let Some(text) = part.text_field(key) {
                    found.push(text.to_owned());
                }
            }
        }
        proof {
            assert(texts(found@) =~= texts(before) + part_text(part@, kind@, key@));
        }
    }
    proof {
        assert(all.take(all.len() as int) =~= all);
    }
    found
}

fn collect_annotations(parts: &Vec<Json>) -> (found: Vec<Json>)
    ensures
        list_trees(found@) == flat(list_trees(parts@), each_part_annotations()),
{
    let ghost all = list_trees(parts@);
    let ghost give = each_part_annotations();
    let mut found: Vec<Json> = Vec::new();
    proof {
        assert(list_trees(found@) =~= flat(all.take(0), give));
    }
    for i in 0..parts.len()
        invariant
            all == list_trees(parts@),
            give == each_part_annotations(),
            list_trees(found@) == flat(all.take(i as int), give),
    {
        proof {
            assert(all.take(i + 1).drop_last() =~= all.take(i as int));
        }
        let part = &parts[i];
        let ghost before = found@;
        let is_text = match part.text_field("type") {
            Some(kind) => same_text(kind, "output_text"),
            None => false,
        };
        if is_text {
            if let Some(annotations) = part.list_field("annotations") {
                let mut more = copy_list(annotations);
                let ghost added = more@;
                found.append(&mut more);
                proof {
                    assert(list_trees(found@) =~= list_trees(before) + list_trees(added));
                }
            }
        }
        proof {
            assert(list_trees(found@) =~= list_trees(before) + part_annotations(part@));
        }
    }
    proof {
        assert(all.take(all.len() as int) =~= all);
    }
    found
}

fn make_message_call(id: &str, item: &Json) -> (call: Json)
    ensures
        call@ == message_call(id@, item@),
{
    let name = match item.text_field("name") {
        Some(name) => name,
        None => "custom_tool",
    };
    let arguments = match item.text_field("arguments") {
        Some(arguments) => arguments,
        None => match item.text_field("input") {
            Some(input) => input,
            None => "",
        },
    };
    let function = JsonObject::new().with("name", Json::text(name)).with(
        "arguments",
        Json::text(arguments),
    );
    Json::Object(
        JsonObject::new().with("id", Json::text(id)).with("type", Json::text("function")).with(
            "function",
            Json::Object(function),
        ),
    )
}

/// What tells the names in a tool call and in a message apart.
proof fn lemma_call_names()
    ensures
        "id"@.len() == 2,
        "type"@.len() == 4,
        "function"@.len() == 8,
        "tool_calls"@.len() == 10,
        "annotations"@.len() == 11,
        "role"@.len() == 4,
        "content"@.len() == 7,
        "refusal"@.len() == 7,
{
    reveal_strlit("id");
    reveal_strlit("type");
    reveal_strlit("function");
    reveal_strlit("tool_calls");
    reveal_strlit("annotations");
    reveal_strlit("role");
    reveal_strlit("content");
    reveal_strlit("refusal");
}

fn collect_calls(items: &Vec<Json>) -> (found: Vec<Json>)
    ensures
        list_trees(found@) == output_calls(list_trees(items@)).0,
        forall|i: int| 0 <= i < found@.len() ==> call_id_fits(#[trigger] list_trees(found@)[i]),
{
    let ghost all = list_trees(items@);
    let mut found: Vec<Json> = Vec::new();
    let mut state = ToolStreamState::new();
    proof {
        assert(list_trees(found@) =~= output_calls(all.take(0)).0);
    }
    for i in 0..items.len()
        invariant
            all == list_trees(items@),
            (list_trees(found@), state@) == output_calls(all.take(i as int)),
            aliases_fit(state@),
            forall|k: int| 0 <= k < found@.len() ==> call_id_fits(#[trigger] list_trees(found@)[k]),
    {
        proof {
            assert(all.take(i + 1).drop_last() =~= all.take(i as int));
        }
        let item = &items[i];
        if item_is_tool_call(item) {
            let raw_ids = [item.text_field("call_id"), item.text_field("id")];
            proof {
                lemma_usable_of_two(raw_ids@);
            }
            if let Some(id) = state.ensure_cursor_tool_call_id(&raw_ids) {
                let ghost before = found@;
                found.push(make_message_call(id.as_str(), item));
                proof {
                    lemma_call_names();
                    assert(list_trees(found@) == list_trees(before).push(
                        message_call(id@, item@),
                    ));
                }
            }
        }
    }
    proof {
        assert(all.take(all.len() as int) =~= all);
    }
    found
}

/// The items of an output, where it is a list.
pub open spec fn output_items(output: Option<JsonTree>) -> Seq<JsonTree> {
    match output {
        Some(JsonTree::List(items)) => items,
        _ => Seq::empty(),
    }
}

/// Turns the output of a response into a chat message.
///
/// The citations of a text are told for the message as a whole, as clients expect them.
pub fn response_to_chat_message(output: Option<&Json>) -> (message: Json)
    ensures
        message@ == chat_message(output_items(opt_tree(output))),
        told_ids_fit(message@),
{
    let nothing: Vec<Json> = Vec::new();
    proof {
        assert(list_trees(nothing@) =~= Seq::empty());
    }
    let items = match output {
        Some(Json::List(items)) => items,
        _ => &nothing,
    };
    let parts = collect_parts(items);
    let said = collect_texts(&parts, "output_text", "text");
    let refused = collect_texts(&parts, "refusal", "refusal");
    let content = if said.len() > 0 {
        Json::Text(join(&said, ""))
    } else if refused.len() > 0 {
        Json::Text(join(&refused, ""))
    } else {
        Json::Null
    };
    let mut message = JsonObject::new().with("role", Json::text("assistant")).with(
        "content",
        content,
    );
    if refused.len() > 0 {
        message.insert("refusal", Json::Text(join(&refused, "")));
    }
    let calls = collect_calls(items);
    if calls.len() > 0 {
        message.insert("tool_calls", Json::List(calls));
    }
    let annotations = collect_annotations(&parts);
    if annotations.len() > 0 {
        message.insert("annotations", Json::List(annotations));
    }
    proof {
        lemma_call_names();
        assert(texts(said@).len() == said@.len());
        assert(texts(refused@).len() == refused@.len());
    }
    Json::Object(message)
}

} // verus!
