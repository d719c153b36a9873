use vstd::prelude::*;

use crate::errors::{plain_error, ErrorAnswer};
use crate::json::JsonTree;
use crate::responses::aggregate::{
    chat_completion, chat_outcome, chat_progress, grown, law_progress_in_runs,
    law_response_is_settled, no_progress, progress, progress_event, ChatProgress, Progress,
};
use crate::responses::relay::Heading;
use crate::responses::relay_laws::{is_completion, lemma_has_calls, reason, tells_usage};
use crate::serde_bridge::{number_of_signed, parsed_text};
use crate::streaming::accumulator::{finalized, gathered, gathered_more, text_bit, Gathered};
use crate::streaming::message::chat_message;
use crate::streaming::message_laws::lemma_joined_add;
use crate::text::joined;

verus! {

/// What tells the names in an answer apart.
proof fn lemma_answer_words()
    ensures
        ""@.len() == 0,
        "id"@.len() == 2,
        "object"@.len() == 6 && "object"@[1] == 'b',
        "created"@.len() == 7 && "created"@[0] == 'c' && "created"@[1] == 'r',
        "model"@.len() == 5 && "model"@[0] == 'm',
        "choices"@.len() == 7 && "choices"@[0] == 'c' && "choices"@[1] == 'h',
        "index"@.len() == 5 && "index"@[0] == 'i',
        "message"@.len() == 7 && "message"@[0] == 'm',
        "finish_reason"@.len() == 13 && "finish_reason"@[0] == 'f',
        "usage"@.len() == 5 && "usage"@[0] == 'u',
        "output"@.len() == 6 && "output"@[1] == 'u',
        "type"@.len() == 4 && "type"@[0] == 't' && "type"@[1] == 'y',
        "role"@.len() == 4 && "role"@[0] == 'r',
        "content"@.len() == 7 && "content"@[0] == 'c' && "content"@[1] == 'o',
        "text"@.len() == 4 && "text"@[0] == 't' && "text"@[1] == 'e',
        "prompt_tokens"@.len() == 13 && "prompt_tokens"@[0] == 'p',
        "completion_tokens"@.len() == 17,
        "total_tokens"@.len() == 12 && "total_tokens"@[0] == 't',
        "input_tokens"@.len() == 12 && "input_tokens"@[0] == 'i',
        "output_tokens"@.len() == 13 && "output_tokens"@[0] == 'o',
        "tool_calls"@.len() == 10,
        "stop"@.len() == 4 && "stop"@[0] == 's',
        "response.output_item.done"@.len() == 25,
        "response.output_text.delta"@.len() == 26,
{
    reveal_strlit("");
    reveal_strlit("id");
    reveal_strlit("object");
    reveal_strlit("created");
    reveal_strlit("model");
    reveal_strlit("choices");
    reveal_strlit("index");
    reveal_strlit("message");
    reveal_strlit("finish_reason");
    reveal_strlit("usage");
    reveal_strlit("output");
    reveal_strlit("type");
    reveal_strlit("role");
    reveal_strlit("content");
    reveal_strlit("text");
    reveal_strlit("prompt_tokens");
    reveal_strlit("completion_tokens");
    reveal_strlit("total_tokens");
    reveal_strlit("input_tokens");
    reveal_strlit("output_tokens");
    reveal_strlit("tool_calls");
    reveal_strlit("stop");
    reveal_strlit("response.output_item.done");
    reveal_strlit("response.output_text.delta");
}

/// What the data of an event says: nothing where it is no JSON or the end of the stream.
pub open spec fn said(event: Seq<char>) -> Option<JsonTree> {
    if event == "[DONE]"@ {
        None
    } else {
        parsed_text(event)
    }
}

/// Whether an event brings an item of the output whole.
pub open spec fn brings_item(event: Seq<char>) -> bool {
    &&& said(event) is Some
    &&& said(event)->0.text_field("type"@) == Some("response.output_item.done"@)
    &&& said(event)->0.field("item"@) is Some
}

/// Whether an event brings a bit of text.
pub open spec fn brings_text(event: Seq<char>) -> bool {
    &&& said(event) is Some
    &&& said(event)->0.text_field("type"@) == Some("response.output_text.delta"@)
    &&& said(event)->0.text_field("delta"@) is Some
}

/// The items that a run of events brings whole, in order.
pub open spec fn items_brought(events: Seq<Seq<char>>) -> Seq<JsonTree>
    decreases events.len(),
{
    if events.len() == 0 {
        Seq::empty()
    } else if brings_item(events.last()) {
        items_brought(events.drop_last()).push(said(events.last())->0.field("item"@)->0)
    } else {
        items_brought(events.drop_last())
    }
}

/// The bits of text that a run of events brings, put together.
pub open spec fn text_brought(events: Seq<Seq<char>>) -> Seq<char>
    decreases events.len(),
{
    if events.len() == 0 {
        Seq::empty()
    } else if brings_text(events.last()) {
        text_brought(events.drop_last()) + said(events.last())->0.text_field("delta"@)->0
    } else {
        text_brought(events.drop_last())
    }
}

/// Whether any event of a run brings a bit of text.
pub open spec fn any_text(events: Seq<Seq<char>>) -> bool
    decreases events.len(),
{
    events.len() > 0 && (brings_text(events.last()) || any_text(events.drop_last()))
}

/// Whether an output is one message of the assistant that says a text.
pub open spec fn is_one_message(output: Seq<JsonTree>, text: Seq<char>) -> bool {
    let parts = output[0].list_field("content"@);
    &&& output.len() == 1
    &&& output[0].text_field("type"@) == Some("message"@)
    &&& output[0].text_field("role"@) == Some("assistant"@)
    &&& parts is Some && parts->0.len() == 1
    &&& parts->0[0].text_field("type"@) == Some("output_text"@)
    &&& parts->0[0].text_field("text"@) == Some(text)
}

/// Whether a response is one that came, with nothing changed but an output that it lacked: that is
/// then all that the events brought, the items whole or else the text as one message.
pub open spec fn is_filled_in(
    told: JsonTree,
    response: JsonTree,
    events: Seq<Seq<char>>,
) -> bool {
    let own = response.list_field("output"@);
    if !(response is Object) || own is Some && own->0.len() > 0 {
        told == response
    } else {
        &&& told is Object
        &&& forall|key: Seq<char>| key != "output"@ ==> told.field(key) == response.field(key)
        &&& if items_brought(events).len() > 0 {
            told.list_field("output"@) == Some(items_brought(events))
        } else if any_text(events) {
            told.list_field("output"@) is Some && is_one_message(
                told.list_field("output"@)->0,
                text_brought(events),
            )
        } else {
            told == response
        }
    }
}

/// Whether what was gathered is what a run of events brought.
spec fn holds_brought(found: Gathered, events: Seq<Seq<char>>) -> bool {
    &&& found.items == items_brought(events)
    &&& joined(found.texts, ""@) == text_brought(events)
    &&& found.texts.len() > 0 <==> any_text(events)
}

proof fn lemma_gathered_step(found: Gathered, events: Seq<Seq<char>>, event: Seq<char>)
    requires
        holds_brought(found, events),
    ensures
        said(event) is Some ==> holds_brought(
            gathered_more(found, said(event)->0),
            events.push(event),
        ),
        said(event) is None ==> holds_brought(found, events.push(event)),
{
    lemma_answer_words();
    let more = events.push(event);
    assert(more.drop_last() =~= events);
    if said(event) is Some {
        let value = said(event)->0;
        let after = gathered_more(found, value);
        let bits = text_bit(value);
        lemma_joined_add(found.texts, bits);
        assert(after.items =~= items_brought(more));
        assert(joined(bits, ""@) == (if brings_text(event) {
            value.text_field("delta"@)->0
        } else {
            Seq::empty()
        }));
        assert(text_brought(events) + Seq::<char>::empty() =~= text_brought(events));
    }
}

proof fn lemma_nothing_brought()
    ensures
        holds_brought(gathered(Seq::empty()), Seq::empty()),
{
    let found = gathered(Seq::empty());
    assert(found.items =~= items_brought(Seq::empty()));
    assert(joined(found.texts, ""@) =~= Seq::empty());
}

proof fn lemma_finalized(found: Gathered, response: JsonTree, events: Seq<Seq<char>>)
    requires
        holds_brought(found, events),
    ensures
        is_filled_in(finalized(found, response), response, events),
{
    lemma_answer_words();
}

/// Whether the data of an event brings the response that the upstream ends with.
pub open spec fn is_final(event: Seq<char>) -> bool {
    &&& said(event) is Some
    &&& is_completion(said(event)->0)
    &&& said(event)->0.field("response"@) is Some
}

proof fn lemma_progress(events: Seq<Seq<char>>)
    requires
        forall|i: int| 0 <= i < events.len() ==> !is_final(#[trigger] events[i]),
    ensures
        progress(no_progress(), events).completed is None,
        holds_brought(progress(no_progress(), events).found, events),
    decreases events.len(),
{
    if events.len() == 0 {
        lemma_nothing_brought();
        assert(events =~= Seq::empty());
    } else {
        let fewer = events.drop_last();
        assert forall|i: int| 0 <= i < fewer.len() implies !is_final(#[trigger] fewer[i]) by {
            assert(fewer[i] == events[i]);
        }
        lemma_progress(fewer);
        assert(!is_final(events[events.len() - 1]));
        lemma_gathered_step(progress(no_progress(), fewer).found, fewer, events.last());
        assert(fewer.push(events.last()) =~= events);
    }
}

/// The response that a client waits for is the first that the upstream completes, filled in with
/// what came until then where it has no output. Without one there is no response.
pub proof fn law_response_is_the_first_completed(events: Seq<Seq<char>>, at: int)
    requires
        0 <= at <= events.len(),
        at < events.len() ==> is_final(events[at]),
        forall|i: int| 0 <= i < at ==> !is_final(#[trigger] events[i]),
    ensures
        ({
            let told = progress(no_progress(), events).completed;
            &&& told is Some <==> at < events.len()
            &&& at < events.len() ==> is_filled_in(
                told->0,
                said(events[at])->0.field("response"@)->0,
                events.take(at + 1),
            )
        }),
{
    let before = events.take(at);
    lemma_progress(before);
    if at < events.len() {
        let event = events[at];
        let here = before.push(event);
        assert(here =~= events.take(at + 1));
        assert(here.drop_last() =~= before);
        let found = progress(no_progress(), before).found;
        lemma_gathered_step(found, before, event);
        lemma_finalized(
            gathered_more(found, said(event)->0),
            said(event)->0.field("response"@)->0,
            here,
        );
        law_progress_in_runs(
            no_progress(),
            here,
            events.skip(at + 1),
        );
        assert(here + events.skip(at + 1) =~= events);
        law_response_is_settled(
            progress(no_progress(), here),
            events.skip(at + 1),
        );
    } else {
        assert(before =~= events);
    }
}

/// Every event that comes before the response is counted, the end of the stream is not.
pub proof fn law_events_are_counted(before: Progress, event: Seq<char>)
    requires
        before.completed is None,
        before.events < u64::MAX,
    ensures
        progress_event(before, event).events == before.events + (if event == "[DONE]"@ {
            0int
        } else {
            1int
        }),
{
}

/// Counts grow by what comes, and stop at the largest that they can hold.
pub proof fn law_counts_grow(count: u64, by: u64)
    ensures
        count + by <= u64::MAX ==> grown(count, by as int) == count + by,
        count + by > u64::MAX ==> grown(count, by as int) == u64::MAX,
{
}

/// Before anything of a chat completion has come.
pub open spec fn no_chat_progress() -> ChatProgress {
    ChatProgress { found: gathered(Seq::empty()), completed: None }
}

/// Whether the data of an event says that the response is complete.
pub open spec fn is_last_word(event: Seq<char>) -> bool {
    said(event) is Some && is_completion(said(event)->0)
}

proof fn lemma_chat_progress(events: Seq<Seq<char>>, at: int)
    requires
        -1 <= at < events.len(),
        at >= 0 ==> is_last_word(events[at]),
        forall|i: int| at < i < events.len() ==> !is_last_word(#[trigger] events[i]),
    ensures
        holds_brought(chat_progress(no_chat_progress(), events).found, events),
        chat_progress(no_chat_progress(), events).completed == (if at >= 0 {
            said(events[at])->0.field("response"@)
        } else {
            None
        }),
    decreases events.len(),
{
    if events.len() == 0 {
        lemma_nothing_brought();
        assert(events =~= Seq::empty());
    } else {
        let fewer = events.drop_last();
        assert(events.last() == events[events.len() - 1]);
        assert(fewer.push(events.last()) =~= events);
        if at < events.len() - 1 {
            assert forall|i: int| at < i < fewer.len() implies !is_last_word(
                #[trigger] fewer[i],
            ) by {
                assert(fewer[i] == events[i]);
            }
            lemma_chat_progress(fewer, at);
            assert(!is_last_word(events[events.len() - 1]));
        } else {
            lemma_chat_found(fewer);
        }
        lemma_gathered_step(
            chat_progress(no_chat_progress(), fewer).found,
            fewer,
            events.last(),
        );
    }
}

proof fn lemma_chat_found(events: Seq<Seq<char>>)
    ensures
        holds_brought(chat_progress(no_chat_progress(), events).found, events),
    decreases events.len(),
{
    if events.len() == 0 {
        lemma_nothing_brought();
        assert(events =~= Seq::empty());
    } else {
        let fewer = events.drop_last();
        lemma_chat_found(fewer);
        lemma_gathered_step(
            chat_progress(no_chat_progress(), fewer).found,
            fewer,
            events.last(),
        );
        assert(fewer.push(events.last()) =~= events);
    }
}

/// A client that waits for a chat completion gets it for the last response that the upstream
/// completes, filled in with all that came where it has no output. Without one it is told that
/// there is none.
pub proof fn law_chat_answer_is_for_the_response(
    head: Heading,
    events: Seq<Seq<char>>,
    at: int,
) -> (response: JsonTree)
    requires
        -1 <= at < events.len(),
        at >= 0 ==> is_last_word(events[at]),
        forall|i: int| at < i < events.len() ==> !is_last_word(#[trigger] events[i]),
    ensures
        ({
            let outcome = chat_outcome(head, chat_progress(no_chat_progress(), events));
            if at >= 0 && said(events[at])->0.field("response"@) is Some {
                &&& outcome == Ok::<JsonTree, ErrorAnswer>(chat_completion(head, response))
                &&& is_filled_in(
                    response,
                    said(events[at])->0.field("response"@)->0,
                    events,
                )
            } else {
                outcome == Err::<JsonTree, ErrorAnswer>(
                    plain_error(502, "Could not build final chat completion object"@),
                )
            }
        }),
{
    lemma_chat_progress(events, at);
    let state = chat_progress(no_chat_progress(), events);
    if state.completed is Some {
        lemma_finalized(state.found, state.completed->0, events);
        finalized(state.found, state.completed->0)
    } else {
        JsonTree::Null
    }
}

/// A chat completion has the message that the output of the response makes, says why the answer
/// ended, and tells the usage where the client wants it.
pub proof fn law_chat_completion_is_whole(head: Heading, response: JsonTree)
    ensures
        ({
            let told = chat_completion(head, response);
            let choices = told.list_field("choices"@);
            let output = response.list_field("output"@);
            &&& told.text_field("id"@) == Some(head.chunk_id)
            &&& told.text_field("object"@) == Some("chat.completion"@)
            &&& told.field("created"@) == Some(JsonTree::Number(number_of_signed(head.created)))
            &&& told.text_field("model"@) == Some(head.model)
            &&& choices is Some && choices->0.len() == 1
            &&& choices->0[0].field("index"@) == Some(JsonTree::Number(number_of_signed(0)))
            &&& choices->0[0].field("message"@) == Some(
                chat_message(
                    if output is Some {
                        output->0
                    } else {
                        Seq::empty()
                    },
                ),
            )
            &&& choices->0[0].text_field("finish_reason"@) == Some(reason(Some(response)))
            &&& told.field("usage"@) is Some == head.include_usage
            &&& head.include_usage ==> tells_usage(told.field("usage"@)->0, Some(response))
            &&& forall|key: Seq<char>|
                key != "id"@ && key != "object"@ && key != "created"@ && key != "model"@ && key
                    != "choices"@ && key != "usage"@ ==> #[trigger] told.field(key) is None
            &&& forall|key: Seq<char>|
                key != "index"@ && key != "message"@ && key != "finish_reason"@
                    ==> #[trigger] choices->0[0].field(key) is None
        }),
{
    lemma_answer_words();
    lemma_has_calls(Some(response));
}

} // verus!
