use vstd::prelude::*;

use crate::json::JsonTree;
use crate::responses::session::{
    failure_text, kept_output, message_request, not_done, session_request, Memory, WsFailure,
};
use crate::serde_bridge::parsed_text;
use crate::streaming::laws::is_filled;

verus! {

/// What tells the names in a request of a session apart.
proof fn lemma_session_words()
    ensures
        ""@.len() == 0,
        "type"@.len() == 4,
        "input"@.len() == 5 && "input"@[0] == 'i',
        "model"@.len() == 5 && "model"@[0] == 'm',
        "instructions"@.len() == 12,
        "previous_response_id"@.len() == 20,
        "response.create"@.len() == 15 && "response.create"@[9] == 'c',
        "response.append"@.len() == 15 && "response.append"@[9] == 'a',
{
    reveal_strlit("");
    reveal_strlit("type");
    reveal_strlit("input");
    reveal_strlit("model");
    reveal_strlit("instructions");
    reveal_strlit("previous_response_id");
    reveal_strlit("response.create");
    reveal_strlit("response.append");
}

/// The items of a list that may be missing.
pub open spec fn items_of(list: Option<JsonTree>) -> Seq<JsonTree> {
    if list is Some && list->0 is List {
        list->0->List_0
    } else {
        Seq::empty()
    }
}

/// The first request of a session goes on as it is, whatever it says: each of its fields is kept,
/// its input too, and none is added but an empty input where it has none.
pub proof fn law_first_request_is_kept(memory: Memory, request: JsonTree, key: Seq<char>)
    requires
        memory.request is None,
        is_filled(request.text_field("model"@)),
    ensures
        ({
            let prepared = session_request(memory, request, "response.create"@);
            &&& prepared is Ok
            &&& prepared->Ok_0 is Object
            &&& prepared->Ok_0.field(key) == (if key == "input"@ && request.field(key) is None {
                Some(JsonTree::List(Seq::empty()))
            } else {
                request.field(key)
            })
        }),
{
    lemma_session_words();
}

/// A session begins with `response.create` and a model, and with nothing else.
pub proof fn law_session_begins_with_a_model(memory: Memory, request: JsonTree, kind: Seq<char>)
    requires
        memory.request is None,
    ensures
        ({
            let prepared = session_request(memory, request, kind);
            &&& kind != "response.create"@ ==> prepared == Err::<JsonTree, Seq<char>>(
                "response.create must be first"@,
            )
            &&& kind == "response.create"@ && !is_filled(request.text_field("model"@))
                ==> prepared == Err::<JsonTree, Seq<char>>(
                "missing model in response.create request"@,
            )
        }),
{
    lemma_session_words();
}

/// A later request of a session needs a list as its input, and no more: a model and instructions
/// are taken from the request before where it has none. All else that it says is kept.
pub proof fn law_later_request_is_kept(
    memory: Memory,
    request: JsonTree,
    kind: Seq<char>,
    key: Seq<char>,
)
    requires
        memory.request is Some,
    ensures
        ({
            let prepared = session_request(memory, request, kind);
            &&& request.list_field("input"@) is None ==> prepared == Err::<JsonTree, Seq<char>>(
                "websocket request requires array field: input"@,
            )
            &&& request.list_field("input"@) is Some ==> {
                &&& prepared is Ok
                &&& prepared->Ok_0 is Object
                &&& key != "input"@ ==> prepared->Ok_0.field(key) == (if request.field(key) is None
                    && (key == "model"@ || key == "instructions"@) {
                    memory.request->0.field(key)
                } else {
                    request.field(key)
                })
            }
        }),
{
    lemma_session_words();
}

/// A later request that names no earlier response has for its input all that was said before,
/// then all that was answered, then all that it says itself. One that names the response that it
/// goes on from has its own input alone.
pub proof fn law_later_request_says_all(memory: Memory, request: JsonTree, kind: Seq<char>)
    requires
        memory.request is Some,
        request.list_field("input"@) is Some,
    ensures
        ({
            let prepared = session_request(memory, request, kind);
            let said = items_of(memory.request->0.field("input"@));
            let answered = items_of(memory.output);
            let next = request.list_field("input"@)->0;
            &&& prepared is Ok
            &&& prepared->Ok_0.list_field("input"@) == Some(
                if is_filled(request.text_field("previous_response_id"@)) {
                    next
                } else {
                    said + answered + next
                },
            )
        }),
{
    lemma_session_words();
}

/// A message of a session is the request that it holds, without its type.
pub proof fn law_message_is_its_request(memory: Memory, request: JsonTree, key: Seq<char>)
    requires
        request.text_field("type"@) == Some("response.create"@) || request.text_field("type"@)
            == Some("response.append"@),
    ensures
        ({
            let read = message_request(memory, Some(request));
            let prepared = session_request(memory, request, request.text_field("type"@)->0);
            &&& read is Ok == prepared is Ok
            &&& prepared is Err ==> read == prepared
            &&& prepared is Ok && prepared->Ok_0 is Object ==> read->Ok_0 is Object
                && read->Ok_0.field(key) == (if key == "type"@ {
                None
            } else {
                prepared->Ok_0.field(key)
            })
        }),
{
    lemma_session_words();
}

/// What is no JSON, or is of another type than the two that a session takes, is refused.
pub proof fn law_other_messages_are_refused(memory: Memory, message: Option<JsonTree>)
    ensures
        message is None ==> message_request(memory, message) == Err::<JsonTree, Seq<char>>(
            "Invalid JSON"@,
        ),
        message is Some && message->0.text_field("type"@) != Some("response.create"@)
            && message->0.text_field("type"@) != Some("response.append"@) ==> message_request(
            memory,
            message,
        ) == Err::<JsonTree, Seq<char>>("unsupported websocket request type"@),
{
    lemma_session_words();
}

/// Nothing that is said first in a session is lost: the message that begins it says upstream what
/// it says itself.
pub proof fn law_first_message_is_kept(memory: Memory, request: JsonTree, key: Seq<char>)
    requires
        memory.request is None,
        request.text_field("type"@) == Some("response.create"@),
        is_filled(request.text_field("model"@)),
        request.field(key) is Some,
        key != "type"@,
    ensures
        message_request(memory, Some(request)) is Ok,
        message_request(memory, Some(request))->Ok_0.field(key) == request.field(key),
{
    law_first_request_is_kept(memory, request, key);
    law_message_is_its_request(memory, request, key);
}

/// Whether the data of an event brings the response that the upstream ends with.
pub open spec fn brings_response(event: Seq<char>) -> bool {
    &&& event != "[DONE]"@
    &&& parsed_text(event) is Some
    &&& parsed_text(event)->0.text_field("type"@) == Some("response.completed"@)
}

/// The output of the response that the data of an event brings.
pub open spec fn brought_output(event: Seq<char>) -> Option<JsonTree> {
    match parsed_text(event)->0.field("response"@) {
        Some(response) => response.field("output"@),
        None => None,
    }
}

/// A session keeps the output of the last response that was completed, and nothing else changes
/// what it keeps.
pub proof fn law_last_output_is_kept(before: Option<JsonTree>, events: Seq<Seq<char>>, at: int)
    requires
        -1 <= at < events.len(),
        at >= 0 ==> brings_response(events[at]),
        forall|i: int| at < i < events.len() ==> !brings_response(#[trigger] events[i]),
    ensures
        kept_output(before, events) == (if at >= 0 {
            brought_output(events[at])
        } else {
            before
        }),
    decreases events.len(),
{
    if events.len() > 0 {
        let fewer = events.drop_last();
        assert(events.last() == events[events.len() - 1]);
        if at < events.len() - 1 {
            assert(!brings_response(events[events.len() - 1]));
            assert forall|i: int| at < i < fewer.len() implies !brings_response(
                #[trigger] fewer[i],
            ) by {
                assert(fewer[i] == events[i]);
            }
            law_last_output_is_kept(before, fewer, at);
        }
    }
}

/// A session is sent every event of the upstream but the end of the stream.
pub proof fn law_every_event_is_sent(events: Seq<Seq<char>>, event: Seq<char>)
    ensures
        events.push(event).filter(not_done()) == (if event == "[DONE]"@ {
            events.filter(not_done())
        } else {
            events.filter(not_done()).push(event)
        }),
{
    reveal(Seq::filter);
    assert(events.push(event).drop_last() =~= events);
}

/// The failures of a session are told apart.
pub proof fn law_failures_are_told_apart(first: WsFailure, second: WsFailure)
    requires
        failure_text(first) == failure_text(second),
    ensures
        first == second,
        failure_text(first).len() > 0,
{
    reveal_strlit("invalid request payload");
    reveal_strlit("failed to call upstream");
    reveal_strlit("upstream stream failure");
    assert("invalid request payload"@[0] == 'i');
    assert("failed to call upstream"@[0] == 'f');
    assert("upstream stream failure"@[0] == 'u');
}

} // verus!
