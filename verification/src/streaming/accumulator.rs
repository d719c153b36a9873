use vstd::prelude::*;

use crate::json::{
    copy_list, group_json, list_trees, no_fields, one_item, Json, JsonObject, JsonTree,
};
use crate::seqs::flat;
use crate::streaming::message::{
    chat_message, each_message_parts, each_part_text, message_parts, output_items, part_text,
};
use crate::text::{join, joined, same_text, texts};

verus! {

broadcast use group_json;

/// Gathers the output of a response from the events of its stream.
///
/// The upstream sends each item whole when it is done, and the text of messages bit by bit, but
/// the response that it sends at the end can lack its output. The gathered output fills the gap.
pub struct ResponseOutputAccumulator {
    items: Vec<Json>,
    text_chunks: Vec<String>,
}

/// What has been gathered of the output of a response.
#[verifier::ext_equal]
pub struct Gathered {
    pub items: Seq<JsonTree>,
    pub texts: Seq<Seq<char>>,
}

impl View for ResponseOutputAccumulator {
    type V = Gathered;

    closed spec fn view(&self) -> Gathered {
        Gathered { items: list_trees(self.items@), texts: texts(self.text_chunks@) }
    }
}

/// The item that an event brings whole.
pub open spec fn done_item(event: JsonTree) -> Seq<JsonTree> {
    if event.text_field("type"@) == Some("response.output_item.done"@) {
        match event.field("item"@) {
            Some(item) => seq![item],
            None => Seq::empty(),
        }
    } else {
        Seq::empty()
    }
}

/// `done_item` as a function of the event.
pub open spec fn each_done_item() -> spec_fn(JsonTree) -> Seq<JsonTree> {
    |event: JsonTree| done_item(event)
}

/// The bit of text that an event brings.
pub open spec fn text_bit(event: JsonTree) -> Seq<Seq<char>> {
    if event.text_field("type"@) == Some("response.output_text.delta"@) {
        match event.text_field("delta"@) {
            Some(delta) => seq![delta],
            None => Seq::empty(),
        }
    } else {
        Seq::empty()
    }
}

/// `text_bit` as a function of the event.
pub open spec fn each_text_bit() -> spec_fn(JsonTree) -> Seq<Seq<char>> {
    |event: JsonTree| text_bit(event)
}

/// What is gathered from a run of events.
pub open spec fn gathered(events: Seq<JsonTree>) -> Gathered {
    Gathered { items: flat(events, each_done_item()), texts: flat(events, each_text_bit()) }
}

/// What is gathered once one more event has come.
pub open spec fn gathered_more(before: Gathered, event: JsonTree) -> Gathered {
    Gathered { items: before.items + done_item(event), texts: before.texts + text_bit(event) }
}

/// A message of the assistant with one text.
pub open spec fn spoken_message(text: Seq<char>) -> JsonTree {
    JsonTree::Object(
        no_fields().insert("type"@, JsonTree::Text("message"@)).insert(
            "role"@,
            JsonTree::Text("assistant"@),
        ).insert(
            "content"@,
            JsonTree::List(
                seq![
                    JsonTree::Object(
                        no_fields().insert("type"@, JsonTree::Text("output_text"@)).insert(
                            "text"@,
                            JsonTree::Text(text),
                        ),
                    ),
                ],
            ),
        ),
    )
}

/// Whether a response has any output.
pub open spec fn has_output(snapshot: JsonTree) -> bool {
    match snapshot.list_field("output"@) {
        Some(items) => items.len() > 0,
        None => false,
    }
}

/// A response with the gathered output, where it has none of its own: the whole items, or else
/// the text as one message.
pub open spec fn finalized(found: Gathered, snapshot: JsonTree) -> JsonTree {
    match snapshot {
        JsonTree::Object(fields) => if has_output(snapshot) {
            snapshot
        } else if found.items.len() > 0 {
            JsonTree::Object(fields.insert("output"@, JsonTree::List(found.items)))
        } else if found.texts.len() > 0 {
            JsonTree::Object(
                fields.insert(
                    "output"@,
                    JsonTree::List(seq![spoken_message(joined(found.texts, ""@))]),
                ),
            )
        } else {
            snapshot
        },
        other => other,
    }
}

impl Default for ResponseOutputAccumulator {
    fn default() -> (value: ResponseOutputAccumulator)
        ensures
            value@ == gathered(Seq::empty()),
    {
        ResponseOutputAccumulator::new()
    }
}

impl ResponseOutputAccumulator {
    /// Nothing gathered yet.
    pub fn new() -> (accumulator: ResponseOutputAccumulator)
        ensures
            accumulator@ == gathered(Seq::empty()),
    {
        let accumulator = ResponseOutputAccumulator { items: Vec::new(), text_chunks: Vec::new() };
        proof {
            assert(accumulator@ =~= gathered(Seq::empty()));
        }
        accumulator
    }

    /// Takes in an event of the stream.
    pub fn observe(&mut self, event: &Json)
        ensures
            final(self)@ == gathered_more(old(self)@, event@),
    {
        let ghost before = self@;
        if let Some(kind) = event.text_field("type") {
            if same_text(kind, "response.output_item.done") {
                if let Some(item) = event.get("item") {
                    self.items.push(item.copy());
                }
            } else if same_text(kind, "response.output_text.delta") {
                if let Some(delta) = event.text_field("delta") {
                    self.text_chunks.push(delta.to_owned());
                }
            }
        }
        proof {
            reveal_strlit("response.output_item.done");
            reveal_strlit("response.output_text.delta");
            assert("response.output_item.done"@.len() != "response.output_text.delta"@.len());
            assert(self@.items =~= before.items + done_item(event@));
            assert(self@.texts =~= before.texts + text_bit(event@));
        }
    }

    /// Fills in the output of the response that came at the end, where it has none of its own.
    pub fn finalize(&self, snapshot: &mut Json)
        ensures
            final(snapshot)@ == finalized(self@, old(snapshot)@),
    {
        let has_output = match snapshot.list_field("output") {
            Some(items) => items.len() > 0,
            None => false,
        };
        if has_output {
            return;
        }
        let mut object = match snapshot.as_object() {
            Some(object) => object.copy(),
            None => {
                return;
            },
        };
        proof {
            assert(self@.texts.len() == self.text_chunks@.len());
        }
        if self.items.len() > 0 {
            object.insert("output", Json::List(copy_list(&self.items)));
        } else if self.text_chunks.len() > 0 {
            let text = join(&self.text_chunks, "");
            let part = JsonObject::new().with("type", Json::text("output_text")).with(
                "text",
                Json::Text(text),
            );
            let message = JsonObject::new().with("type", Json::text("message")).with(
                "role",
                Json::text("assistant"),
            ).with("content", Json::List(one_item(Json::Object(part))));
            object.insert("output", Json::List(one_item(Json::Object(message))));
        } else {
            return;
        }
        *snapshot = Json::Object(object);
    }
}

/// Events that are taken in one by one are gathered as a run.
pub proof fn law_gathered_event_by_event(events: Seq<JsonTree>, event: JsonTree)
    ensures
        gathered(events.push(event)) == gathered_more(gathered(events), event),
{
    assert(events.push(event).drop_last() =~= events);
}

/// A response with output of its own is left alone, whatever was gathered.
pub proof fn law_own_output_is_left_alone(found: Gathered, snapshot: JsonTree)
    requires
        has_output(snapshot),
    ensures
        finalized(found, snapshot) == snapshot,
{
}

/// A response that is filled in once is not changed by filling it in again.
pub proof fn law_filling_in_settles(found: Gathered, snapshot: JsonTree)
    ensures
        finalized(found, finalized(found, snapshot)) == finalized(found, snapshot),
{
}

proof fn lemma_flat_one<A, B>(item: A, give: spec_fn(A) -> Seq<B>)
    ensures
        flat(seq![item], give) == give(item),
{
    reveal_with_fuel(flat, 2);
    assert(seq![item].drop_last() =~= Seq::empty());
    assert(flat(seq![item], give) =~= give(item));
}

/// No text is lost where a response comes without its output: the chat message that is made from
/// it says the bits of text that arrived, one after the other.
pub proof fn law_streamed_text_reaches_the_message(events: Seq<JsonTree>, snapshot: JsonTree)
    requires
        snapshot is Object,
        !has_output(snapshot),
        flat(events, each_done_item()).len() == 0,
        flat(events, each_text_bit()).len() > 0,
    ensures
        ({
            let filled = finalized(gathered(events), snapshot);
            chat_message(output_items(filled.field("output"@))).field("content"@) == Some(
                JsonTree::Text(joined(flat(events, each_text_bit()), ""@)),
            )
        }),
{
    let text = joined(flat(events, each_text_bit()), ""@);
    let message = spoken_message(text);
    let part = JsonTree::Object(
        no_fields().insert("type"@, JsonTree::Text("output_text"@)).insert(
            "text"@,
            JsonTree::Text(text),
        ),
    );
    let said_by = each_part_text("output_text"@, "text"@);
    lemma_message_words();
    lemma_flat_one(message, each_message_parts());
    assert(message_parts(message) == seq![part]);
    assert(each_message_parts()(message) == seq![part]);
    lemma_flat_one(part, said_by);
    assert(part_text(part, "output_text"@, "text"@) == seq![text]);
    assert(said_by(part) == seq![text]);
    assert(joined(seq![text], ""@) == text);
}

proof fn lemma_message_words()
    ensures
        "type"@.len() == 4 && "type"@[1] == 'y',
        "role"@.len() == 4 && "role"@[1] == 'o',
        "text"@.len() == 4 && "text"@[1] == 'e',
        "content"@.len() == 7 && "content"@[0] == 'c',
        "refusal"@.len() == 7 && "refusal"@[0] == 'r',
        "tool_calls"@.len() == 10,
        "annotations"@.len() == 11,
{
    reveal_strlit("type");
    reveal_strlit("role");
    reveal_strlit("text");
    reveal_strlit("content");
    reveal_strlit("refusal");
    reveal_strlit("tool_calls");
    reveal_strlit("annotations");
}

} // verus!
