use vstd::prelude::*;
use vstd::utf8::*;

use crate::json::{no_fields, JsonTree};
use crate::responses::relay::{
    calls_tools, chat_frames, first_frame, last_chunk, passed_on, stream_ending, stretch_events,
    value_frames, Conversation, Heading,
};
use crate::serde_bridge::{number_of_signed, parsed_text};
use crate::streaming::chunks::{chat_chunk, event_step, is_tool_call};
use crate::streaming::laws::{
    chunk_delta, is_chunk, is_told_of, item_calls, law_line_carries_the_step,
    law_other_events_are_not_told, lemma_event_types, sent_frame,
};
use crate::streaming::sse::{law_stretches_do_not_matter, stream_events};
use crate::text::lossy_text;

verus! {

/// What tells the names in the chunks of an answer apart.
proof fn lemma_relay_words()
    ensures
        "id"@.len() == 2,
        "object"@.len() == 6,
        "created"@.len() == 7 && "created"@[1] == 'r',
        "model"@.len() == 5 && "model"@[0] == 'm',
        "choices"@.len() == 7 && "choices"@[1] == 'h',
        "index"@.len() == 5 && "index"@[0] == 'i',
        "delta"@.len() == 5 && "delta"@[0] == 'd',
        "finish_reason"@.len() == 13 && "finish_reason"@[0] == 'f',
        "usage"@.len() == 5 && "usage"@[0] == 'u',
        "role"@.len() == 4 && "role"@[0] == 'r',
        "prompt_tokens"@.len() == 13 && "prompt_tokens"@[0] == 'p',
        "completion_tokens"@.len() == 17,
        "total_tokens"@.len() == 12 && "total_tokens"@[0] == 't',
        "input_tokens"@.len() == 12 && "input_tokens"@[0] == 'i',
        "output_tokens"@.len() == 13 && "output_tokens"@[0] == 'o',
        "tool_calls"@.len() == 10,
        "stop"@.len() == 4 && "stop"@[0] == 's',
{
    reveal_strlit("id");
    reveal_strlit("object");
    reveal_strlit("created");
    reveal_strlit("model");
    reveal_strlit("choices");
    reveal_strlit("index");
    reveal_strlit("delta");
    reveal_strlit("finish_reason");
    reveal_strlit("usage");
    reveal_strlit("role");
    reveal_strlit("prompt_tokens");
    reveal_strlit("completion_tokens");
    reveal_strlit("total_tokens");
    reveal_strlit("input_tokens");
    reveal_strlit("output_tokens");
    reveal_strlit("tool_calls");
    reveal_strlit("stop");
}

/// The first frame of a chat completion says who speaks.
pub proof fn law_first_frame_says_who_speaks(head: Heading) -> (chunk: JsonTree)
    ensures
        first_frame(head) == sent_frame(chunk),
        is_chunk(chunk, head.chunk_id, head.created, head.model),
        chunk_delta(chunk) is Some,
        chunk_delta(chunk)->0.text_field("role"@) == Some("assistant"@),
        forall|key: Seq<char>| key != "role"@ ==> chunk_delta(chunk)->0.field(key) is None,
{
    lemma_relay_words();
    let delta = JsonTree::Object(
        no_fields().insert("role"@, JsonTree::Text("assistant"@)),
    );
    chat_chunk(head.chunk_id, head.created, head.model, delta, JsonTree::Null)
}

/// Whether an event carries the response that the upstream ends with.
pub open spec fn is_completion(event: JsonTree) -> bool {
    event.text_field("type"@) == Some("response.completed"@)
}

/// An event in the middle of a stream has the client sent one frame with what it adds to the
/// answer, or none where it adds nothing, and does not end the answer.
pub proof fn law_event_is_told(head: Heading, state: Conversation, event: JsonTree) -> (
    chunk: JsonTree)
    requires
        !is_completion(event),
    ensures
        ({
            let (frames, behind) = value_frames(head, state, event);
            let (step, calls) = event_step(event, state.calls);
            &&& behind.calls == calls
            &&& behind.saw_done == state.saw_done
            &&& step is None ==> frames.len() == 0
            &&& step is Some ==> {
                &&& frames == seq![sent_frame(chunk)]
                &&& is_chunk(chunk, head.chunk_id, head.created, head.model)
                &&& chunk_delta(chunk) == step
            }
        }),
{
    law_line_carries_the_step(event, state.calls, head.chunk_id, head.created, head.model)
}

/// Whether some item of the output of a response calls a tool.
pub open spec fn has_calls(response: Option<JsonTree>) -> bool {
    &&& response is Some
    &&& response->0.list_field("output"@) is Some
    &&& exists|i: int|
        0 <= i < response->0.list_field("output"@)->0.len() && item_calls(
            #[trigger] response->0.list_field("output"@)->0[i],
        )
}

/// What a response says of its usage, as a count, 0 where it says nothing.
pub open spec fn counted(response: Option<JsonTree>, key: Seq<char>) -> JsonTree {
    let usage = match response {
        Some(response) => response.field("usage"@),
        None => None,
    };
    let count = match usage {
        Some(usage) => usage.integer_field(key),
        None => None,
    };
    JsonTree::Number(
        number_of_signed(
            if count is Some {
                count->0
            } else {
                0
            },
        ),
    )
}

/// Whether a value tells the usage of a response in the words of a chat completion.
pub open spec fn tells_usage(usage: JsonTree, response: Option<JsonTree>) -> bool {
    &&& usage.field("prompt_tokens"@) == Some(counted(response, "input_tokens"@))
    &&& usage.field("completion_tokens"@) == Some(counted(response, "output_tokens"@))
    &&& usage.field("total_tokens"@) == Some(counted(response, "total_tokens"@))
    &&& forall|key: Seq<char>|
        key != "prompt_tokens"@ && key != "completion_tokens"@ && key != "total_tokens"@
            ==> #[trigger] usage.field(key) is None
}

/// Why an answer ended: `tool_calls` where the client is to call tools, and else `stop`.
pub open spec fn reason(response: Option<JsonTree>) -> Seq<char> {
    if has_calls(response) {
        "tool_calls"@
    } else {
        "stop"@
    }
}

/// Whether a value is the last chunk of a chat completion: it adds nothing, says why the answer
/// ended, and tells the usage where the client wants it.
pub open spec fn is_last_chunk(chunk: JsonTree, head: Heading, response: Option<JsonTree>) -> bool {
    let choices = chunk.list_field("choices"@);
    &&& chunk.text_field("id"@) == Some(head.chunk_id)
    &&& chunk.text_field("object"@) == Some("chat.completion.chunk"@)
    &&& chunk.field("created"@) == Some(JsonTree::Number(number_of_signed(head.created)))
    &&& chunk.text_field("model"@) == Some(head.model)
    &&& choices is Some && choices->0.len() == 1
    &&& choices->0[0].field("index"@) == Some(JsonTree::Number(number_of_signed(0)))
    &&& choices->0[0].text_field("finish_reason"@) == Some(reason(response))
    &&& choices->0[0].field("delta"@) is Some
    &&& forall|key: Seq<char>| choices->0[0].field("delta"@)->0.field(key) is None
    &&& chunk.field("usage"@) is Some == head.include_usage
    &&& head.include_usage ==> tells_usage(chunk.field("usage"@)->0, response)
    &&& forall|key: Seq<char>|
        key != "id"@ && key != "object"@ && key != "created"@ && key != "model"@ && key
            != "choices"@ && key != "usage"@ ==> #[trigger] chunk.field(key) is None
    &&& forall|key: Seq<char>|
        key != "index"@ && key != "delta"@ && key != "finish_reason"@
            ==> #[trigger] choices->0[0].field(key) is None
}

/// The event that completes a response ends the answer: the client is sent the last chunk and then
/// the end of the stream, and nothing before them.
pub proof fn law_completion_ends_the_answer(
    head: Heading,
    state: Conversation,
    event: JsonTree,
) -> (chunk: JsonTree)
    requires
        is_completion(event),
    ensures
        ({
            let (frames, behind) = value_frames(head, state, event);
            &&& frames == seq![sent_frame(chunk), "data: [DONE]\n\n"@]
            &&& is_last_chunk(chunk, head, event.field("response"@))
            &&& behind.saw_done
            &&& behind.calls == state.calls
        }),
{
    lemma_relay_words();
    lemma_completed_is_not_told();
    lemma_done();
    let response = event.field("response"@);
    let chunk = last_chunk(head, response);
    law_other_events_are_not_told(event, state.calls);
    lemma_has_calls(response);
    let frames = value_frames(head, state, event).0;
    assert(frames =~= seq![sent_frame(chunk), "data: [DONE]\n\n"@]);
    chunk
}

pub(crate) proof fn lemma_has_calls(response: Option<JsonTree>)
    ensures
        has_calls(response) == calls_tools(response),
{
    if response is Some && response->0.list_field("output"@) is Some {
        let items = response->0.list_field("output"@)->0;
        if has_calls(response) {
            let i = choose|i: int|
                0 <= i < response->0.list_field("output"@)->0.len() && item_calls(
                    #[trigger] response->0.list_field("output"@)->0[i],
                );
            assert(is_tool_call(items[i]));
        }
        if calls_tools(response) {
            let i = choose|i: int|
                0 <= i < items.len() && is_tool_call(#[trigger] items[i]);
            assert(item_calls(response->0.list_field("output"@)->0[i]));
        }
    }
}

proof fn lemma_done()
    ensures
        "data: "@ + "[DONE]"@ + "\n\n"@ == "data: [DONE]\n\n"@,
{
    reveal_strlit("data: ");
    reveal_strlit("[DONE]");
    reveal_strlit("\n\n");
    reveal_strlit("data: [DONE]\n\n");
    assert("data: "@ + "[DONE]"@ + "\n\n"@ =~= "data: [DONE]\n\n"@);
}

proof fn lemma_completed_is_not_told()
    ensures
        !is_told_of(Some("response.completed"@)),
{
    reveal_strlit("response.completed");
    assert("response.completed"@.len() == 18);
    lemma_event_types();
}

/// Each event of a stream has the client sent its own frames, behind those of the events before
/// it. Data that is no JSON, and the end of the stream as the upstream tells it, have none.
pub proof fn law_each_event_is_told_in_turn(
    head: Heading,
    state: Conversation,
    events: Seq<Seq<char>>,
    event: Seq<char>,
)
    ensures
        ({
            let (before, between) = chat_frames(head, state, events);
            let (all, behind) = chat_frames(head, state, events.push(event));
            if event == "[DONE]"@ || parsed_text(event) is None {
                all == before && behind == between
            } else {
                let (told, after) = value_frames(head, between, parsed_text(event)->0);
                all == before + told && behind == after
            }
        }),
        chat_frames(head, state, Seq::empty()) == (Seq::<Seq<char>>::empty(), state),
{
    assert(events.push(event).drop_last() =~= events);
    let before = chat_frames(head, state, events).0;
    assert(before + Seq::<Seq<char>>::empty() =~= before);
}

/// Events that are passed on are passed on one by one, each as it came and in its own frame.
pub proof fn law_events_are_passed_on(events: Seq<Seq<char>>)
    ensures
        passed_on(events).len() == events.len(),
        forall|i: int|
            0 <= i < events.len() ==> #[trigger] passed_on(events)[i] == "data: "@ + events[i]
                + "\n\n"@,
{
}

/// Where an upstream is cut into stretches of whole characters does not matter.
pub proof fn law_upstream_stretches_do_not_matter(
    pending: Seq<u8>,
    first: Seq<u8>,
    second: Seq<u8>,
)
    ensures
        ({
            let (events, rest) = stretch_events(pending, first);
            let (more_events, more_rest) = stretch_events(rest, second);
            stream_events(
                pending + encode_utf8(lossy_text(first)) + encode_utf8(lossy_text(second)),
            ) == (events + more_events, more_rest)
        }),
{
    law_stretches_do_not_matter(
        pending + encode_utf8(lossy_text(first)),
        encode_utf8(lossy_text(second)),
    );
}

/// The end of a stream is told once: behind a stream that has told it, nothing follows.
pub proof fn law_end_is_told_once()
    ensures
        stream_ending(true).len() == 0,
        stream_ending(false) == seq!["data: [DONE]\n\n"@],
{
    lemma_done();
}

} // verus!
