use vstd::prelude::*;

use crate::errors::{json_error, plain_error, ErrorAnswer, ErrorResponse};
use crate::json::{
    group_json, no_fields, one_item, opt_json, parse_json, Json, JsonObject, JsonTree,
};
use crate::responses::relay::{
    chat_usage, completes, feed_bytes, finish_reason, make_chat_usage, make_finish_reason,
    stretch_events, ChunkHead, Heading,
};
use crate::serde_bridge::{number_of_signed, parsed_text};
use crate::streaming::accumulator::{
    finalized, gathered, gathered_more, Gathered, ResponseOutputAccumulator,
};
use crate::streaming::message::{chat_message, output_items, response_to_chat_message};
use crate::streaming::sse::SseParser;
use crate::text::{same_text, texts};

verus! {

broadcast use group_json;

/// A count that has grown. It stops at the largest that it can hold.
pub open spec fn grown(count: u64, by: int) -> u64 {
    if count + by > u64::MAX {
        u64::MAX
    } else {
        (count + by) as u64
    }
}

fn grow(count: u64, by: u64) -> (sum: u64)
    ensures
        sum == grown(count, by as int),
{
    if count > u64::MAX - by {
        u64::MAX
    } else {
        count + by
    }
}

fn event_completes(event: &Json) -> (answer: bool)
    ensures
        answer == completes(event@),
{
    match event.text_field("type") {
        Some(kind) => same_text(kind, "response.completed"),
        None => false,
    }
}

/// Waits for the response that an upstream ends with.
pub struct ResponseAggregate {
    parser: SseParser,
    accumulator: ResponseOutputAccumulator,
    completed: Option<Json>,
    chunk_count: u64,
    event_count: u64,
    bytes_received: u64,
}

/// What has come of a response so far.
#[verifier::ext_equal]
pub struct Progress {
    /// The output that was gathered on the way.
    pub found: Gathered,
    /// The response, once it has come.
    pub completed: Option<JsonTree>,
    /// How many events have come before it.
    pub events: u64,
}

/// What has come once one more event has. Nothing counts behind the response.
pub open spec fn progress_value(before: Progress, event: JsonTree) -> Progress {
    let found = gathered_more(before.found, event);
    Progress {
        found,
        completed: if completes(event) {
            match event.field("response"@) {
                Some(response) => Some(finalized(found, response)),
                None => None,
            }
        } else {
            None
        },
        events: before.events,
    }
}

/// What has come once the data of one more event has.
pub open spec fn progress_event(before: Progress, event: Seq<char>) -> Progress {
    if before.completed is Some || event == "[DONE]"@ {
        before
    } else {
        let counted = Progress { events: grown(before.events, 1), ..before };
        match parsed_text(event) {
            Some(value) => progress_value(counted, value),
            None => counted,
        }
    }
}

/// What has come once a run of events has.
pub open spec fn progress(before: Progress, events: Seq<Seq<char>>) -> Progress
    decreases events.len(),
{
    if events.len() == 0 {
        before
    } else {
        progress_event(progress(before, events.drop_last()), events.last())
    }
}

/// Before anything has come.
pub open spec fn no_progress() -> Progress {
    Progress { found: gathered(Seq::empty()), completed: None, events: 0 }
}

/// The answer where a response never came.
pub open spec fn no_response_answer() -> ErrorAnswer {
    plain_error(502, "Could not build final response object"@)
}

impl ResponseAggregate {
    /// The bytes of the upstream since the last whole event.
    pub closed spec fn pending(self) -> Seq<u8> {
        self.parser.pending()
    }

    /// What has come so far.
    pub closed spec fn progress(self) -> Progress {
        Progress {
            found: self.accumulator@,
            completed: opt_json(self.completed),
            events: self.event_count,
        }
    }

    /// How many stretches of the upstream have come.
    pub closed spec fn chunks(self) -> u64 {
        self.chunk_count
    }

    /// How many bytes of the upstream have come.
    pub closed spec fn bytes(self) -> u64 {
        self.bytes_received
    }

    /// Before anything has come.
    pub fn new() -> (aggregate: ResponseAggregate)
        ensures
            aggregate.pending() == Seq::<u8>::empty(),
            aggregate.progress() == no_progress(),
            aggregate.chunks() == 0,
            aggregate.bytes() == 0,
    {
        ResponseAggregate {
            parser: SseParser::new(),
            accumulator: ResponseOutputAccumulator::new(),
            completed: None,
            chunk_count: 0,
            event_count: 0,
            bytes_received: 0,
        }
    }

    /// Takes in one event of the upstream, before the response has come.
    pub fn take_event(&mut self, event: &Json)
        requires
            old(self).progress().completed is None,
        ensures
            final(self).progress() == progress_value(old(self).progress(), event@),
            final(self).pending() == old(self).pending(),
            final(self).chunks() == old(self).chunks(),
            final(self).bytes() == old(self).bytes(),
    {
        self.accumulator.observe(event);
        if event_completes(event) {
            if let Some(response) = event.get("response") {
                let mut response = response.copy();
                self.accumulator.finalize(&mut response);
                self.completed = Some(response);
            }
        }
    }

    /// Takes in a stretch of the upstream.
    pub fn feed(&mut self, chunk: &[u8])
        ensures
            ({
                let (events, rest) = stretch_events(old(self).pending(), chunk@);
                &&& final(self).progress() == progress(old(self).progress(), events)
                &&& final(self).pending() == rest
            }),
            final(self).chunks() == grown(old(self).chunks(), 1),
            final(self).bytes() == grown(old(self).bytes(), chunk@.len() as int),
    {
        let ghost before = self.progress();
        self.chunk_count = grow(self.chunk_count, 1);
        self.bytes_received = grow(self.bytes_received, chunk.len() as u64);
        let events = feed_bytes(&mut self.parser, chunk);
        let ghost all = texts(events@);
        let ghost rest = self.pending();
        let ghost chunks = self.chunks();
        let ghost bytes = self.bytes();
        proof {
            assert(all.take(0) =~= Seq::empty());
        }
        for i in 0..events.len()
            invariant
                all == texts(events@),
                self.pending() == rest,
                self.chunks() == chunks,
                self.bytes() == bytes,
                self.progress() == progress(before, all.take(i as int)),
        {
            proof {
                assert(all.take(i + 1).drop_last() =~= all.take(i as int));
                assert(all[i as int] == events@[i as int]@);
            }
            if self.completed.is_none() && !same_text(events[i].as_str(), "[DONE]") {
                self.event_count = grow(self.event_count, 1);
                if let Some(value) = parse_json(events[i].as_str()) {
                    self.take_event(&value);
                }
            }
        }
        proof {
            assert(all.take(all.len() as int) =~= all);
        }
    }

    /// Whether the response has come.
    pub fn is_complete(&self) -> (answer: bool)
        ensures
            answer == (self.progress().completed is Some),
    {
        self.completed.is_some()
    }

    /// How many stretches, events and bytes have come.
    pub fn counts(&self) -> (counts: (u64, u64, u64))
        ensures
            counts == (self.chunks(), self.progress().events, self.bytes()),
    {
        (self.chunk_count, self.event_count, self.bytes_received)
    }

    /// The response, or the answer where it never came.
    pub fn outcome(&self) -> (outcome: Result<Json, ErrorResponse>)
        ensures
            (match self.progress().completed {
                Some(response) => outcome is Ok && outcome->Ok_0@ == response,
                None => outcome is Err && outcome->Err_0@ == no_response_answer(),
            }),
    {
        match &self.completed {
            Some(response) => Ok(response.copy()),
            None => Err(json_error(502, "Could not build final response object")),
        }
    }
}

/// The response does not depend on how its events come together: those that come in two runs lead
/// where they lead as one.
pub proof fn law_progress_in_runs(
    before: Progress,
    first: Seq<Seq<char>>,
    second: Seq<Seq<char>>,
)
    ensures
        progress(before, first + second) == progress(progress(before, first), second),
    decreases second.len(),
{
    if second.len() == 0 {
        assert(first + second =~= first);
    } else {
        assert((first + second).drop_last() =~= first + second.drop_last());
        law_progress_in_runs(before, first, second.drop_last());
    }
}

/// Once the response has come, nothing that follows changes it.
pub proof fn law_response_is_settled(before: Progress, events: Seq<Seq<char>>)
    requires
        before.completed is Some,
    ensures
        progress(before, events) == before,
    decreases events.len(),
{
    if events.len() > 0 {
        law_response_is_settled(before, events.drop_last());
    }
}

/// No response is made up: without an event that completes one there is none.
pub proof fn law_no_response_without_completion(before: Progress, events: Seq<Seq<char>>)
    requires
        before.completed is None,
        forall|i: int|
            0 <= i < events.len() ==> match parsed_text(#[trigger] events[i]) {
                Some(value) => !completes(value),
                None => true,
            },
    ensures
        progress(before, events).completed is None,
    decreases events.len(),
{
    if events.len() > 0 {
        let fewer = events.drop_last();
        assert forall|i: int| 0 <= i < fewer.len() implies match parsed_text(#[trigger] fewer[i]) {
            Some(value) => !completes(value),
            None => true,
        } by {
            assert(fewer[i] == events[i]);
        }
        law_no_response_without_completion(before, fewer);
        assert(events.last() == events[events.len() - 1]);
    }
}

/// Waits for the response that an upstream ends with, to make a chat completion of it.
pub struct ChatAggregate {
    parser: SseParser,
    accumulator: ResponseOutputAccumulator,
    completed: Option<Json>,
}

/// What has come of a response so far, and the last word on it.
#[verifier::ext_equal]
pub struct ChatProgress {
    /// The output that was gathered on the way.
    pub found: Gathered,
    /// The response that the last event of its kind brought.
    pub completed: Option<JsonTree>,
}

/// What has come once one more event has.
pub open spec fn chat_progress_value(before: ChatProgress, event: JsonTree) -> ChatProgress {
    ChatProgress {
        found: gathered_more(before.found, event),
        completed: if completes(event) {
            event.field("response"@)
        } else {
            before.completed
        },
    }
}

/// What has come once the data of one more event has.
pub open spec fn chat_progress_event(before: ChatProgress, event: Seq<char>) -> ChatProgress {
    if event == "[DONE]"@ {
        before
    } else {
        match parsed_text(event) {
            Some(value) => chat_progress_value(before, value),
            None => before,
        }
    }
}

/// What has come once a run of events has.
pub open spec fn chat_progress(before: ChatProgress, events: Seq<Seq<char>>) -> ChatProgress
    decreases events.len(),
{
    if events.len() == 0 {
        before
    } else {
        chat_progress_event(chat_progress(before, events.drop_last()), events.last())
    }
}

/// A chat completion for a response.
pub open spec fn chat_completion(head: Heading, response: JsonTree) -> JsonTree {
    let choice = JsonTree::Object(
        no_fields().insert("index"@, JsonTree::Number(number_of_signed(0))).insert(
            "message"@,
            chat_message(output_items(response.field("output"@))),
        ).insert("finish_reason"@, JsonTree::Text(finish_reason(Some(response)))),
    );
    let told = no_fields().insert("id"@, JsonTree::Text(head.chunk_id)).insert(
        "object"@,
        JsonTree::Text("chat.completion"@),
    ).insert("created"@, JsonTree::Number(number_of_signed(head.created))).insert(
        "model"@,
        JsonTree::Text(head.model),
    ).insert("choices"@, JsonTree::List(seq![choice]));
    if head.include_usage {
        JsonTree::Object(told.insert("usage"@, chat_usage(response.field("usage"@))))
    } else {
        JsonTree::Object(told)
    }
}

/// Makes a chat completion of a response.
pub fn make_chat_completion(head: &ChunkHead, response: &Json) -> (completion: Json)
    ensures
        completion@ == chat_completion(head@, response@),
{
    let choice = Json::Object(
        JsonObject::new().with("index", Json::integer(0)).with(
            "message",
            response_to_chat_message(response.get("output")),
        ).with("finish_reason", Json::text(make_finish_reason(Some(response)))),
    );
    let mut told = JsonObject::new().with("id", Json::text(head.chunk_id.as_str())).with(
        "object",
        Json::text("chat.completion"),
    ).with("created", Json::integer(head.created)).with(
        "model",
        Json::text(head.model.as_str()),
    ).with("choices", Json::List(one_item(choice)));
    if head.include_usage {
        told.insert("usage", make_chat_usage(response.get("usage")));
    }
    Json::Object(told)
}

/// What a client is answered with what has come of a response.
pub open spec fn chat_outcome(head: Heading, state: ChatProgress) -> Result<
    JsonTree,
    ErrorAnswer,
> {
    match state.completed {
        Some(response) => Ok(chat_completion(head, finalized(state.found, response))),
        None => Err(plain_error(502, "Could not build final chat completion object"@)),
    }
}

impl ChatAggregate {
    /// The bytes of the upstream since the last whole event.
    pub closed spec fn pending(self) -> Seq<u8> {
        self.parser.pending()
    }

    /// What has come so far.
    pub closed spec fn progress(self) -> ChatProgress {
        ChatProgress { found: self.accumulator@, completed: opt_json(self.completed) }
    }

    /// Before anything has come.
    pub fn new() -> (aggregate: ChatAggregate)
        ensures
            aggregate.pending() == Seq::<u8>::empty(),
            aggregate.progress() == (ChatProgress {
                found: gathered(Seq::empty()),
                completed: None,
            }),
    {
        ChatAggregate {
            parser: SseParser::new(),
            accumulator: ResponseOutputAccumulator::new(),
            completed: None,
        }
    }

    /// Takes in one event of the upstream.
    pub fn take_event(&mut self, event: &Json)
        ensures
            final(self).progress() == chat_progress_value(old(self).progress(), event@),
            final(self).pending() == old(self).pending(),
    {
        self.accumulator.observe(event);
        if event_completes(event) {
            self.completed = match event.get("response") {
                Some(response) => Some(response.copy()),
                None => None,
            };
        }
    }

    /// Takes in a stretch of the upstream.
    pub fn feed(&mut self, chunk: &[u8])
        ensures
            ({
                let (events, rest) = stretch_events(old(self).pending(), chunk@);
                &&& final(self).progress() == chat_progress(old(self).progress(), events)
                &&& final(self).pending() == rest
            }),
    {
        let ghost before = self.progress();
        let events = feed_bytes(&mut self.parser, chunk);
        let ghost all = texts(events@);
        let ghost rest = self.pending();
        proof {
            assert(all.take(0) =~= Seq::empty());
        }
        for i in 0..events.len()
            invariant
                all == texts(events@),
                self.pending() == rest,
                self.progress() == chat_progress(before, all.take(i as int)),
        {
            proof {
                assert(all.take(i + 1).drop_last() =~= all.take(i as int));
                assert(all[i as int] == events@[i as int]@);
            }
            if !same_text(events[i].as_str(), "[DONE]") {
                if let Some(value) = parse_json(events[i].as_str()) {
                    self.take_event(&value);
                }
            }
        }
        proof {
            assert(all.take(all.len() as int) =~= all);
        }
    }

    /// The chat completion once the upstream has ended, or the answer where no response came.
    pub fn outcome(&self, head: &ChunkHead) -> (outcome: Result<Json, ErrorResponse>)
        ensures
            (match chat_outcome(head@, self.progress()) {
                Ok(completion) => outcome is Ok && outcome->Ok_0@ == completion,
                Err(answer) => outcome is Err && outcome->Err_0@ == answer,
            }),
    {
        match &self.completed {
            Some(response) => {
                let mut response = response.copy();
                self.accumulator.finalize(&mut response);
                Ok(make_chat_completion(head, &response))
            },
            None => Err(json_error(502, "Could not build final chat completion object")),
        }
    }
}

/// A chat completion does not depend on how its events come together: those that come in two runs
/// lead where they lead as one.
pub proof fn law_chat_progress_in_runs(
    before: ChatProgress,
    first: Seq<Seq<char>>,
    second: Seq<Seq<char>>,
)
    ensures
        chat_progress(before, first + second) == chat_progress(
            chat_progress(before, first),
            second,
        ),
    decreases second.len(),
{
    if second.len() == 0 {
        assert(first + second =~= first);
    } else {
        assert((first + second).drop_last() =~= first + second.drop_last());
        law_chat_progress_in_runs(before, first, second.drop_last());
    }
}

} // verus!
