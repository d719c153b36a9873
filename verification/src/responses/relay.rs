use vstd::prelude::*;
use vstd::utf8::*;

use crate::json::{
    group_json, list_trees, no_fields, one_item, opt_field, opt_tree, parse_json, Json, JsonObject,
    JsonTree,
};
use crate::serde_bridge::{number_of_signed, parsed_text};
use crate::streaming::chunks::{
    chat_chunk, chat_chunk_line, data_line, event_line, event_step, is_tool_call,
    item_is_tool_call, make_data_line, map_response_event_to_chat_chunk,
};
use crate::streaming::sse::{is_line, law_frame_is_read_back, stream_events, SseParser};
use crate::streaming::tool_calls::{
    aliases_fit, no_tool_calls, told_ids_fit, ToolCalls, ToolStreamState,
};
use crate::text::{concat, lossy_text, read_lossy, same_text, text_or, texts};

verus! {

broadcast use group_json;

/// Whether a client asks for a stream.
pub fn wants_stream(body: &Json) -> (answer: bool)
    ensures
        answer == (body@.bool_field("stream"@) == Some(true)),
{
    match body.bool_field("stream") {
        Some(stream) => stream,
        None => false,
    }
}

/// The model that a request is for, as a chat completion names it.
pub fn model_of_request(payload: &Json) -> (model: String)
    ensures
        model@ == text_or(payload@.text_field("model"@), "gpt-5.4"@),
{
    match payload.text_field("model") {
        Some(model) => model.to_owned(),
        None => "gpt-5.4".to_owned(),
    }
}

/// A text as one frame of a server-sent event stream.
pub open spec fn event_frame(event: Seq<char>) -> Seq<char> {
    "data: "@ + event + "\n\n"@
}

fn make_event_frame(event: &str) -> (frame: String)
    ensures
        frame@ == event_frame(event@),
{
    let start = concat("data: ", event);
    concat(start.as_str(), "\n\n")
}

/// The frame at the end of a stream.
pub open spec fn done_frame() -> Seq<char> {
    event_frame("[DONE]"@)
}

/// The events that a stretch of an upstream completes, and the bytes that stay behind.
pub open spec fn stretch_events(pending: Seq<u8>, chunk: Seq<u8>) -> (Seq<Seq<char>>, Seq<u8>) {
    stream_events(pending + encode_utf8(lossy_text(chunk)))
}

/// Takes in a stretch of an upstream, as bytes.
pub(crate) fn feed_bytes(parser: &mut SseParser, chunk: &[u8]) -> (events: Vec<String>)
    ensures
        (texts(events@), final(parser).pending()) == stretch_events(old(parser).pending(), chunk@),
{
    let text = read_lossy(chunk);
    parser.feed(text.as_str())
}

/// The frames that a client is sent for the events of the upstream, passed on as they are.
pub open spec fn passed_on(events: Seq<Seq<char>>) -> Seq<Seq<char>> {
    events.map_values(|event: Seq<char>| event_frame(event))
}

/// What ends a stream: the frame for its end, unless that has been sent.
pub open spec fn stream_ending(saw_done: bool) -> Seq<Seq<char>> {
    if saw_done {
        Seq::empty()
    } else {
        seq![done_frame()]
    }
}

fn make_ending(saw_done: bool) -> (frames: Vec<String>)
    ensures
        texts(frames@) == stream_ending(saw_done),
{
    let mut frames: Vec<String> = Vec::new();
    if !saw_done {
        frames.push(make_event_frame("[DONE]"));
    }
    proof {
        assert(texts(frames@) =~= stream_ending(saw_done));
    }
    frames
}

/// Passes the events of an upstream on to a client as they are.
pub struct PassthroughRelay {
    parser: SseParser,
    saw_done: bool,
}

/// Where a stream that is passed on stands.
#[verifier::ext_equal]
pub struct Passage {
    /// The bytes of the upstream since the last whole event.
    pub pending: Seq<u8>,
    /// Whether the end of the stream has been passed on.
    pub saw_done: bool,
}

impl View for PassthroughRelay {
    type V = Passage;

    closed spec fn view(&self) -> Passage {
        Passage { pending: self.parser.pending(), saw_done: self.saw_done }
    }
}

impl PassthroughRelay {
    /// A stream that has not begun.
    pub fn new() -> (relay: PassthroughRelay)
        ensures
            relay@ == (Passage { pending: Seq::empty(), saw_done: false }),
    {
        PassthroughRelay { parser: SseParser::new(), saw_done: false }
    }

    /// Takes in a stretch of the upstream and gives the frames to send.
    pub fn feed(&mut self, chunk: &[u8]) -> (frames: Vec<String>)
        ensures
            ({
                let (events, rest) = stretch_events(old(self)@.pending, chunk@);
                &&& texts(frames@) == passed_on(events)
                &&& final(self)@ == (Passage {
                    pending: rest,
                    saw_done: old(self)@.saw_done || events.contains("[DONE]"@),
                })
            }),
    {
        let ghost before = self.saw_done;
        let events = feed_bytes(&mut self.parser, chunk);
        let ghost all = texts(events@);
        let ghost rest = self.parser.pending();
        let mut frames: Vec<String> = Vec::new();
        for i in 0..events.len()
            invariant
                all == texts(events@),
                self.parser.pending() == rest,
                frames@.len() == i,
                forall|k: int| 0 <= k < i ==> (#[trigger] frames@[k])@ == event_frame(all[k]),
                self.saw_done == (before || exists|k: int|
                    0 <= k < i && (#[trigger] all[k]) == "[DONE]"@),
        {
            proof {
                assert(all[i as int] == events@[i as int]@);
            }
            if same_text(events[i].as_str(), "[DONE]") {
                self.saw_done = true;
            }
            frames.push(make_event_frame(events[i].as_str()));
        }
        proof {
            assert(texts(frames@) =~= passed_on(all));
        }
        frames
    }

    /// The frames to send once the upstream has ended or failed.
    pub fn finish(&self) -> (frames: Vec<String>)
        ensures
            texts(frames@) == stream_ending(self@.saw_done),
    {
        make_ending(self.saw_done)
    }
}

/// What a client reads of an event that is passed on is the event, where that is one line.
pub proof fn law_passage_is_read_back(event: Seq<char>)
    requires
        is_line(event),
    ensures
        stream_events(encode_utf8(event_frame(event))) == (seq![event], Seq::<u8>::empty()),
{
    law_frame_is_read_back(event);
}

/// However the upstream ends, the client is told of the end.
pub proof fn law_passage_is_ended(events: Seq<Seq<char>>)
    ensures
        (passed_on(events) + stream_ending(events.contains("[DONE]"@))).contains(done_frame()),
{
    let all = passed_on(events) + stream_ending(events.contains("[DONE]"@));
    if events.contains("[DONE]"@) {
        let at = choose|i: int| 0 <= i < events.len() && events[i] == "[DONE]"@;
        assert(all[at] == done_frame());
    } else {
        assert(all.last() == done_frame());
    }
}

/// Whether the output of a response has tool calls in it.
pub open spec fn calls_tools(response: Option<JsonTree>) -> bool {
    match response {
        Some(response) => match response.list_field("output"@) {
            Some(items) => exists|i: int| 0 <= i < items.len() && is_tool_call(#[trigger] items[i]),
            None => false,
        },
        None => false,
    }
}

/// Whether the output of a response has tool calls in it.
pub fn response_output_indicates_tool_calls(response: Option<&Json>) -> (answer: bool)
    ensures
        answer == calls_tools(opt_tree(response)),
{
    let items = match response {
        Some(response) => match response.list_field("output") {
            Some(items) => items,
            None => {
                return false;
            },
        },
        None => {
            return false;
        },
    };
    let ghost all = response->0@.list_field("output"@)->0;
    for i in 0..items.len()
        invariant
            response is Some,
            response->0@.list_field("output"@) == Some(all),
            all == list_trees(items@),
            forall|k: int| 0 <= k < i ==> !is_tool_call(#[trigger] all[k]),
    {
        if item_is_tool_call(&items[i]) {
            proof {
                let found = opt_tree(response)->0.list_field("output"@)->0;
                assert(is_tool_call(found[i as int]));
            }
            return true;
        }
        proof {
            assert(!is_tool_call(all[i as int]));
        }
    }
    false
}

/// Why an answer ended: to have tools called, or because all was said.
pub open spec fn finish_reason(response: Option<JsonTree>) -> Seq<char> {
    if calls_tools(response) {
        "tool_calls"@
    } else {
        "stop"@
    }
}

/// Why an answer ended.
pub(crate) fn make_finish_reason(response: Option<&Json>) -> (reason: &'static str)
    ensures
        reason@ == finish_reason(opt_tree(response)),
{
    if response_output_indicates_tool_calls(response) {
        "tool_calls"
    } else {
        "stop"
    }
}

/// A count of the usage of a response, 0 where it is not told.
pub open spec fn usage_count(usage: Option<JsonTree>, key: Seq<char>) -> JsonTree {
    let count = match usage {
        Some(usage) => match usage.integer_field(key) {
            Some(count) => count,
            None => 0,
        },
        None => 0,
    };
    JsonTree::Number(number_of_signed(count))
}

/// The usage of a response in the words of a chat completion.
pub open spec fn chat_usage(usage: Option<JsonTree>) -> JsonTree {
    JsonTree::Object(
        no_fields().insert("prompt_tokens"@, usage_count(usage, "input_tokens"@)).insert(
            "completion_tokens"@,
            usage_count(usage, "output_tokens"@),
        ).insert("total_tokens"@, usage_count(usage, "total_tokens"@)),
    )
}

fn make_usage_count(usage: Option<&Json>, key: &str) -> (count: Json)
    ensures
        count@ == usage_count(opt_tree(usage), key@),
{
    let count: i64 = match usage {
        Some(usage) => match usage.integer_field(key) {
            Some(count) => count,
            None => 0,
        },
        None => 0,
    };
    Json::integer(count)
}

/// The usage of a response in the words of a chat completion.
pub(crate) fn make_chat_usage(usage: Option<&Json>) -> (told: Json)
    ensures
        told@ == chat_usage(opt_tree(usage)),
{
    Json::Object(
        JsonObject::new().with("prompt_tokens", make_usage_count(usage, "input_tokens")).with(
            "completion_tokens",
            make_usage_count(usage, "output_tokens"),
        ).with("total_tokens", make_usage_count(usage, "total_tokens")),
    )
}

/// What the chunks of one chat completion have in common.
pub struct ChunkHead {
    pub chunk_id: String,
    pub created: i64,
    pub model: String,
    pub include_usage: bool,
}

/// What the chunks of one chat completion have in common, by the texts involved.
pub struct Heading {
    pub chunk_id: Seq<char>,
    pub created: i64,
    pub model: Seq<char>,
    pub include_usage: bool,
}

impl View for ChunkHead {
    type V = Heading;

    open spec fn view(&self) -> Heading {
        Heading {
            chunk_id: self.chunk_id@,
            created: self.created,
            model: self.model@,
            include_usage: self.include_usage,
        }
    }
}

/// The last chunk of a chat completion, for the response that the upstream ends with.
pub open spec fn last_chunk(head: Heading, response: Option<JsonTree>) -> JsonTree {
    let chunk = chat_chunk(
        head.chunk_id,
        head.created,
        head.model,
        JsonTree::Object(no_fields()),
        JsonTree::Text(finish_reason(response)),
    );
    if head.include_usage {
        JsonTree::Object(
            chunk->Object_0.insert("usage"@, chat_usage(opt_field(response, "usage"@))),
        )
    } else {
        chunk
    }
}

/// The first frame of a chat completion.
pub open spec fn first_frame(head: Heading) -> Seq<char> {
    let delta = JsonTree::Object(no_fields().insert("role"@, JsonTree::Text("assistant"@)));
    data_line(chat_chunk(head.chunk_id, head.created, head.model, delta, JsonTree::Null))
}

/// Where a chat completion stands.
#[verifier::ext_equal]
pub struct Conversation {
    /// What is known of its tool calls.
    pub calls: ToolCalls,
    /// Whether its end has been told.
    pub saw_done: bool,
}

/// Whether an event carries the response that the upstream ends with.
pub open spec fn completes(event: JsonTree) -> bool {
    event.text_field("type"@) == Some("response.completed"@)
}

/// The frames that a client is sent for an event of the upstream, and where that leads.
pub open spec fn value_frames(head: Heading, state: Conversation, event: JsonTree) -> (
    Seq<Seq<char>>,
    Conversation,
) {
    let (line, calls) = event_line(event, state.calls, head.chunk_id, head.created, head.model);
    let told = match line {
        Some(line) => seq![line],
        None => Seq::empty(),
    };
    if completes(event) {
        (
            told + seq![data_line(last_chunk(head, event.field("response"@))), done_frame()],
            Conversation { calls, saw_done: true },
        )
    } else {
        (told, Conversation { calls, saw_done: state.saw_done })
    }
}

/// The frames that a client is sent for the data of an event, and where that leads. Data that is
/// no JSON says nothing.
pub open spec fn event_frames(head: Heading, state: Conversation, event: Seq<char>) -> (
    Seq<Seq<char>>,
    Conversation,
) {
    match parsed_text(event) {
        Some(value) => if event == "[DONE]"@ {
            (Seq::empty(), state)
        } else {
            value_frames(head, state, value)
        },
        None => (Seq::empty(), state),
    }
}

/// The frames that a client is sent for a run of events, and where that leads.
pub open spec fn chat_frames(head: Heading, state: Conversation, events: Seq<Seq<char>>) -> (
    Seq<Seq<char>>,
    Conversation,
)
    decreases events.len(),
{
    if events.len() == 0 {
        (Seq::empty(), state)
    } else {
        let (before, between) = chat_frames(head, state, events.drop_last());
        let (last, behind) = event_frames(head, between, events.last());
        (before + last, behind)
    }
}

/// Tells the events of an upstream to a client as the chunks of a chat completion.
pub struct ChatRelay {
    head: ChunkHead,
    parser: SseParser,
    tools: ToolStreamState,
    saw_done: bool,
}

impl ChatRelay {
    /// What the chunks have in common.
    pub closed spec fn heading(self) -> Heading {
        self.head@
    }

    /// The bytes of the upstream since the last whole event.
    pub closed spec fn pending(self) -> Seq<u8> {
        self.parser.pending()
    }

    /// Where the chat completion stands.
    pub closed spec fn conversation(self) -> Conversation {
        Conversation { calls: self.tools@, saw_done: self.saw_done }
    }

    /// A chat completion that has not begun.
    pub fn new(head: ChunkHead) -> (relay: ChatRelay)
        ensures
            relay.heading() == head@,
            relay.pending() == Seq::<u8>::empty(),
            relay.conversation() == (Conversation { calls: no_tool_calls(), saw_done: false }),
            aliases_fit(relay.conversation().calls),
    {
        ChatRelay {
            head,
            parser: SseParser::new(),
            tools: ToolStreamState::new(),
            saw_done: false,
        }
    }

    /// The frame to send before the upstream says anything.
    pub fn start(&self) -> (frame: String)
        ensures
            frame@ == first_frame(self.heading()),
    {
        let delta = Json::Object(JsonObject::new().with("role", Json::text("assistant")));
        chat_chunk_line(
            self.head.chunk_id.as_str(),
            self.head.created,
            self.head.model.as_str(),
            delta,
            Json::Null,
        )
    }

    fn last_line(&self, response: Option<&Json>) -> (line: String)
        ensures
            line@ == data_line(
                last_chunk(self.heading(), opt_tree(response)),
            ),
    {
        let choice = Json::Object(
            JsonObject::new().with("index", Json::integer(0)).with(
                "delta",
                Json::Object(JsonObject::new()),
            ).with("finish_reason", Json::text(make_finish_reason(response))),
        );
        let mut chunk = JsonObject::new().with("id", Json::text(self.head.chunk_id.as_str())).with(
            "object",
            Json::text("chat.completion.chunk"),
        ).with("created", Json::integer(self.head.created)).with(
            "model",
            Json::text(self.head.model.as_str()),
        ).with("choices", Json::List(one_item(choice)));
        if self.head.include_usage {
            let usage = match response {
                Some(response) => response.get("usage"),
                None => None,
            };
            chunk.insert("usage", make_chat_usage(usage));
        }
        make_data_line(&Json::Object(chunk))
    }

    /// Takes in one event of the upstream and gives the frames to send.
    pub fn take_event(&mut self, event: &Json) -> (frames: Vec<String>)
        ensures
            (texts(frames@), final(self).conversation()) == value_frames(
                old(self).heading(),
                old(self).conversation(),
                event@,
            ),
            final(self).heading() == old(self).heading(),
            final(self).pending() == old(self).pending(),
            aliases_fit(old(self).conversation().calls) ==> aliases_fit(
                final(self).conversation().calls,
            ) && match event_step(event@, old(self).conversation().calls).0 {
                Some(step) => told_ids_fit(step),
                None => true,
            },
    {
        let mut frames: Vec<String> = Vec::new();
        let line = map_response_event_to_chat_chunk(
            event,
            &mut self.tools,
            self.head.chunk_id.as_str(),
            self.head.created,
            self.head.model.as_str(),
        );
        if let Some(line) = line {
            frames.push(line);
        }
        let ghost told = texts(frames@);
        let completed = match event.text_field("type") {
            Some(kind) => same_text(kind, "response.completed"),
            None => false,
        };
        if completed {
            self.saw_done = true;
            frames.push(self.last_line(event.get("response")));
            frames.push(make_event_frame("[DONE]"));
        }
        proof {
            let (frames_told, behind) = value_frames(
                old(self).heading(),
                old(self).conversation(),
                event@,
            );
            assert(texts(frames@) =~= frames_told);
            assert(self.conversation() =~= behind);
        }
        frames
    }

    /// Takes in a stretch of the upstream and gives the frames to send.
    pub fn feed(&mut self, chunk: &[u8]) -> (frames: Vec<String>)
        ensures
            ({
                let (events, rest) = stretch_events(old(self).pending(), chunk@);
                &&& (texts(frames@), final(self).conversation()) == chat_frames(
                    old(self).heading(),
                    old(self).conversation(),
                    events,
                )
                &&& final(self).pending() == rest
            }),
            final(self).heading() == old(self).heading(),
            aliases_fit(old(self).conversation().calls) ==> aliases_fit(
                final(self).conversation().calls,
            ),
    {
        let ghost head = self.heading();
        let ghost before = self.conversation();
        let events = feed_bytes(&mut self.parser, chunk);
        let ghost all = texts(events@);
        let ghost rest = self.pending();
        let mut frames: Vec<String> = Vec::new();
        proof {
            assert(all.take(0) =~= Seq::empty());
            assert(texts(frames@) =~= Seq::empty());
        }
        for i in 0..events.len()
            invariant
                all == texts(events@),
                self.heading() == head,
                self.pending() == rest,
                aliases_fit(before.calls) ==> aliases_fit(self.conversation().calls),
                (texts(frames@), self.conversation()) == chat_frames(
                    head,
                    before,
                    all.take(i as int),
                ),
        {
            proof {
                assert(all.take(i + 1).drop_last() =~= all.take(i as int));
                assert(all[i as int] == events@[i as int]@);
            }
            let ghost so_far = frames@;
            let ghost between = self.conversation();
            if !same_text(events[i].as_str(), "[DONE]") {
                if let Some(value) = parse_json(events[i].as_str()) {
                    let mut more = self.take_event(&value);
                    let ghost added = more@;
                    frames.append(&mut more);
                    proof {
                        assert(texts(frames@) =~= texts(so_far) + texts(added));
                    }
                }
            }
            proof {
                let (last, behind) = event_frames(head, between, all[i as int]);
                assert(texts(frames@) =~= texts(so_far) + last);
            }
        }
        proof {
            assert(all.take(all.len() as int) =~= all);
        }
        frames
    }

    /// The frames to send once the upstream has ended or failed.
    pub fn finish(&self) -> (frames: Vec<String>)
        ensures
            texts(frames@) == stream_ending(self.conversation().saw_done),
    {
        make_ending(self.saw_done)
    }
}

/// However the upstream ends, the client is told of the end.
pub proof fn law_conversation_is_ended(head: Heading, events: Seq<Seq<char>>)
    ensures
        ({
            let start = Conversation { calls: no_tool_calls(), saw_done: false };
            let (frames, behind) = chat_frames(head, start, events);
            (frames + stream_ending(behind.saw_done)).contains(done_frame())
        }),
{
    let start = Conversation { calls: no_tool_calls(), saw_done: false };
    let (frames, behind) = chat_frames(head, start, events);
    lemma_end_is_told(head, start, events);
    let all = frames + stream_ending(behind.saw_done);
    if behind.saw_done {
        let at = choose|i: int| 0 <= i < frames.len() && frames[i] == done_frame();
        assert(all[at] == done_frame());
    } else {
        assert(all.last() == done_frame());
    }
}

proof fn lemma_end_is_told(head: Heading, start: Conversation, events: Seq<Seq<char>>)
    requires
        !start.saw_done,
    ensures
        ({
            let (frames, behind) = chat_frames(head, start, events);
            behind.saw_done ==> frames.contains(done_frame())
        }),
    decreases events.len(),
{
    if events.len() > 0 {
        lemma_end_is_told(head, start, events.drop_last());
        let (before, between) = chat_frames(head, start, events.drop_last());
        let (last, behind) = event_frames(head, between, events.last());
        let all = before + last;
        if between.saw_done {
            let at = choose|i: int| 0 <= i < before.len() && before[i] == done_frame();
            assert(all[at] == done_frame());
        } else if behind.saw_done {
            assert(last.last() == done_frame());
            assert(all[all.len() - 1] == done_frame());
        }
    }
}

/// What a chat relay tells does not depend on how its events come together: those that come in two
/// runs are told as in one.
pub proof fn law_runs_do_not_matter(
    head: Heading,
    state: Conversation,
    first: Seq<Seq<char>>,
    second: Seq<Seq<char>>,
)
    ensures
        ({
            let (before, between) = chat_frames(head, state, first);
            let (after, behind) = chat_frames(head, between, second);
            chat_frames(head, state, first + second) == (before + after, behind)
        }),
    decreases second.len(),
{
    let (before, between) = chat_frames(head, state, first);
    if second.len() == 0 {
        assert(first + second =~= first);
        assert(before + Seq::<Seq<char>>::empty() =~= before);
    } else {
        assert((first + second).drop_last() =~= first + second.drop_last());
        law_runs_do_not_matter(head, state, first, second.drop_last());
        let (after, middle) = chat_frames(head, between, second.drop_last());
        let (last, behind) = event_frames(head, middle, second.last());
        assert((before + after) + last =~= before + (after + last));
    }
}

} // verus!
