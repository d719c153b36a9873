use vstd::prelude::*;

use crate::json::{
    copy_list, group_json, list_trees, no_fields, opt_field, opt_json, opt_tree, parse_json,
    print_json, Fields, Json, JsonObject, JsonTree,
};
use crate::responses::relay::{completes, feed_bytes, stretch_events};
use crate::serde_bridge::{lemma_short_keys, parsed_text, plain_within, printed};
use crate::streaming::sse::SseParser;
use crate::text::{or_empty, same_text, text_or, texts};

verus! {

broadcast use group_json;

/// What a websocket session remembers of the exchange before.
pub struct WsSessionState {
    /// The request, as it was sent upstream.
    pub last_request: Option<Json>,
    /// The output of the response to it.
    pub last_response_output: Option<Json>,
}

/// What a websocket session remembers of the exchange before.
#[verifier::ext_equal]
pub struct Memory {
    pub request: Option<JsonTree>,
    pub output: Option<JsonTree>,
}

impl View for WsSessionState {
    type V = Memory;

    open spec fn view(&self) -> Memory {
        Memory {
            request: opt_json(self.last_request),
            output: opt_json(self.last_response_output),
        }
    }
}

impl Default for WsSessionState {
    fn default() -> (session: WsSessionState)
        ensures
            session@ == (Memory { request: None, output: None }),
    {
        WsSessionState { last_request: None, last_response_output: None }
    }
}

/// The items of an optional list.
pub open spec fn items_or_none(list: Option<JsonTree>) -> Seq<JsonTree> {
    match list {
        Some(JsonTree::List(items)) => items,
        _ => Seq::empty(),
    }
}

/// The input of a request that goes on from the exchange before: what was said, what was
/// answered, and what is said now.
pub open spec fn continued_input(memory: Memory, next: Seq<JsonTree>) -> Seq<JsonTree> {
    items_or_none(opt_field(memory.request, "input"@)) + items_or_none(memory.output) + next
}

/// The fields with one taken from the request before, where they lack it.
pub open spec fn with_remembered(fields: Fields, memory: Memory, key: Seq<char>) -> Fields {
    if fields.dom().contains(key) {
        fields
    } else {
        match opt_field(memory.request, key) {
            Some(value) => fields.insert(key, value),
            None => fields,
        }
    }
}

/// The first request of a session: it has to name a model.
pub open spec fn first_request(request: JsonTree, kind: Seq<char>) -> Result<JsonTree, Seq<char>> {
    if kind != "response.create"@ {
        Err("response.create must be first"@)
    } else if text_or(request.text_field("model"@), ""@).len() == 0 {
        Err("missing model in response.create request"@)
    } else if request.field("input"@) is None {
        Ok(
            JsonTree::Object(
                request->Object_0.insert("input"@, JsonTree::List(Seq::empty())),
            ),
        )
    } else {
        Ok(request)
    }
}

/// A later request of a session: it goes on from the exchange before, unless it names the
/// response that it goes on from.
pub open spec fn later_request(memory: Memory, request: JsonTree) -> Result<JsonTree, Seq<char>> {
    match request.list_field("input"@) {
        Some(next) => {
            let named = text_or(request.text_field("previous_response_id"@), ""@);
            let fields = if named.len() == 0 {
                request->Object_0.insert("input"@, JsonTree::List(continued_input(memory, next)))
            } else {
                request->Object_0
            };
            Ok(
                JsonTree::Object(
                    with_remembered(
                        with_remembered(fields, memory, "model"@),
                        memory,
                        "instructions"@,
                    ),
                ),
            )
        },
        None => Err("websocket request requires array field: input"@),
    }
}

/// What becomes of a request of a session.
pub open spec fn session_request(memory: Memory, request: JsonTree, kind: Seq<char>) -> Result<
    JsonTree,
    Seq<char>,
> {
    if memory.request is None {
        first_request(request, kind)
    } else {
        later_request(memory, request)
    }
}

/// The outcome of a step on a request of a session, by what it holds.
pub open spec fn session_outcome(outcome: Result<Json, &'static str>) -> Result<
    JsonTree,
    Seq<char>,
> {
    match outcome {
        Ok(request) => Ok(request@),
        Err(message) => Err(message@),
    }
}

fn object_of(request: &Json) -> (object: JsonObject)
    requires
        request@ is Object,
    ensures
        JsonTree::Object(object@) == request@,
{
    match request {
        Json::Object(object) => object.copy(),
        _ => JsonObject::new(),
    }
}

fn add_items(items: &mut Vec<Json>, list: Option<&Json>)
    ensures
        list_trees(final(items)@) == list_trees(old(items)@) + items_or_none(opt_tree(list)),
{
    let ghost before = items@;
    if let Some(Json::List(list)) = list {
        let mut more = copy_list(list);
        let ghost added = more@;
        items.append(&mut more);
        proof {
            assert(list_trees(items@) =~= list_trees(before) + list_trees(added));
        }
    } else {
        proof {
            assert(list_trees(items@) =~= list_trees(before) + Seq::<JsonTree>::empty());
        }
    }
}

fn remember(object: &mut JsonObject, session: &WsSessionState, key: &str)
    ensures
        final(object)@ == with_remembered(old(object)@, session@, key@),
{
    if object.contains_key(key) {
        return;
    }
    let value = match &session.last_request {
        Some(request) => match request.get(key) {
            Some(value) => value.copy(),
            None => {
                return;
            },
        },
        None => {
            return;
        },
    };
    object.insert(key, value);
}

/// Completes a request of a session with what the session remembers.
pub fn prepare_ws_request(session: &WsSessionState, request: Json, kind: &str) -> (prepared: Result<
    Json,
    &'static str,
>)
    ensures
        session_outcome(prepared) == session_request(session@, request@, kind@),
{
    if session.last_request.is_none() {
        if !same_text(kind, "response.create") {
            return Err("response.create must be first");
        }
        proof {
            reveal_strlit("");
        }
        if or_empty(request.text_field("model")).is_empty() {
            return Err("missing model in response.create request");
        }
        if request.get("input").is_none() {
            let nothing: Vec<Json> = Vec::new();
            proof {
                assert(list_trees(nothing@) =~= Seq::empty());
            }
            return Ok(Json::Object(object_of(&request).with("input", Json::List(nothing))));
        }
        return Ok(request);
    }
    let next = match request.list_field("input") {
        Some(_) => request.get("input"),
        None => {
            return Err("websocket request requires array field: input");
        },
    };
    let mut object = object_of(&request);
    if or_empty(request.text_field("previous_response_id")).is_empty() {
        let mut merged: Vec<Json> = Vec::new();
        proof {
            assert(list_trees(merged@) =~= Seq::empty());
        }
        let before = match &session.last_request {
            Some(request) => request.get("input"),
            None => None,
        };
        add_items(&mut merged, before);
        add_items(&mut merged, session.last_response_output.as_ref());
        add_items(&mut merged, next);
        proof {
            let said = request@.list_field("input"@)->0;
            assert(list_trees(merged@) =~= continued_input(session@, said));
        }
        object.insert("input", Json::List(merged));
    }
    remember(&mut object, session, "model");
    remember(&mut object, session, "instructions");
    Ok(Json::Object(object))
}

/// What becomes of a message of a session: the request that it asks for, or what is wrong with it.
pub open spec fn message_request(memory: Memory, message: Option<JsonTree>) -> Result<
    JsonTree,
    Seq<char>,
> {
    match message {
        Some(request) => {
            let kind = text_or(request.text_field("type"@), ""@);
            if kind != "response.create"@ && kind != "response.append"@ {
                Err("unsupported websocket request type"@)
            } else {
                match session_request(memory, request, kind) {
                    Ok(prepared) => Ok(
                        match prepared {
                            JsonTree::Object(fields) => JsonTree::Object(fields.remove("type"@)),
                            other => other,
                        },
                    ),
                    Err(message) => Err(message),
                }
            }
        },
        None => Err("Invalid JSON"@),
    }
}

/// Reads a message of a session.
pub fn read_ws_message(session: &WsSessionState, text: &str) -> (request: Result<
    Json,
    &'static str,
>)
    ensures
        session_outcome(request) == message_request(session@, parsed_text(text@)),
{
    let message = parse_json(text);
    take_ws_message(session, message)
}

/// Reads the value that a message of a session holds, if it holds one.
pub fn take_ws_message(session: &WsSessionState, message: Option<Json>) -> (request: Result<
    Json,
    &'static str,
>)
    ensures
        session_outcome(request) == message_request(session@, opt_json(message)),
{
    let request = match message {
        Some(request) => request,
        None => {
            return Err("Invalid JSON");
        },
    };
    let kind = or_empty(request.text_field("type")).to_owned();
    if !same_text(kind.as_str(), "response.create") && !same_text(
        kind.as_str(),
        "response.append",
    ) {
        return Err("unsupported websocket request type");
    }
    match prepare_ws_request(session, request, kind.as_str()) {
        Ok(prepared) => match prepared {
            Json::Object(object) => {
                let mut object = object;
                object.remove("type");
                Ok(Json::Object(object))
            },
            other => Ok(other),
        },
        Err(message) => Err(message),
    }
}

/// The message that tells a client what is wrong.
pub open spec fn error_message(message: Seq<char>) -> JsonTree {
    JsonTree::Object(
        no_fields().insert("type"@, JsonTree::Text("error"@)).insert(
            "message"@,
            JsonTree::Text(message),
        ),
    )
}

/// The message that tells a client what is wrong.
pub fn ws_error(message: &str) -> (text: String)
    ensures
        text@ == printed(error_message(message@)),
        parsed_text(text@) == Some(error_message(message@)),
{
    proof {
        reveal_with_fuel(plain_within, 3);
        reveal_strlit("type");
        reveal_strlit("message");
        lemma_short_keys("type"@);
        lemma_short_keys("message"@);
        assert(plain_within(error_message(message@), 64));
    }
    print_json(
        &Json::Object(
            JsonObject::new().with("type", Json::text("error")).with(
                "message",
                Json::text(message),
            ),
        ),
    )
}

/// What can go wrong with a request of a session once its message was read.
pub enum WsFailure {
    /// The request cannot be sent upstream.
    Refused,
    /// The upstream cannot be reached.
    Unreachable,
    /// The stream of the upstream broke off.
    Interrupted,
}

/// What a client is told of a failure.
pub open spec fn failure_text(failure: WsFailure) -> Seq<char> {
    match failure {
        WsFailure::Refused => "invalid request payload"@,
        WsFailure::Unreachable => "failed to call upstream"@,
        WsFailure::Interrupted => "upstream stream failure"@,
    }
}

/// The message that tells a client of a failure.
pub fn ws_failure(failure: WsFailure) -> (text: String)
    ensures
        text@ == printed(error_message(failure_text(failure))),
        parsed_text(text@) == Some(error_message(failure_text(failure))),
{
    let message = match failure {
        WsFailure::Refused => "invalid request payload",
        WsFailure::Unreachable => "failed to call upstream",
        WsFailure::Interrupted => "upstream stream failure",
    };
    ws_error(message)
}

/// Passes the events of an upstream on to a session, and keeps the output of the response.
pub struct WsRelay {
    parser: SseParser,
    last_output: Option<Json>,
}

/// The events that a session is sent: all but the end of the stream.
pub open spec fn not_done() -> spec_fn(Seq<char>) -> bool {
    |event: Seq<char>| event != "[DONE]"@
}

/// The output that is kept once one more event has come.
pub open spec fn kept_value(before: Option<JsonTree>, event: JsonTree) -> Option<JsonTree> {
    if completes(event) {
        opt_field(event.field("response"@), "output"@)
    } else {
        before
    }
}

/// The output that is kept once a run of events has come.
pub open spec fn kept_output(before: Option<JsonTree>, events: Seq<Seq<char>>) -> Option<JsonTree>
    decreases events.len(),
{
    if events.len() == 0 {
        before
    } else {
        let kept = kept_output(before, events.drop_last());
        match parsed_text(events.last()) {
            Some(value) => if events.last() == "[DONE]"@ {
                kept
            } else {
                kept_value(kept, value)
            },
            None => kept,
        }
    }
}

impl WsRelay {
    /// The bytes of the upstream since the last whole event.
    pub closed spec fn pending(self) -> Seq<u8> {
        self.parser.pending()
    }

    /// The output of the response, once it has come.
    pub closed spec fn output(self) -> Option<JsonTree> {
        opt_json(self.last_output)
    }

    /// Before anything has come.
    pub fn new() -> (relay: WsRelay)
        ensures
            relay.pending() == Seq::<u8>::empty(),
            relay.output() is None,
    {
        WsRelay { parser: SseParser::new(), last_output: None }
    }

    /// Takes in one event of the upstream.
    pub fn take_event(&mut self, event: &Json)
        ensures
            final(self).output() == kept_value(old(self).output(), event@),
            final(self).pending() == old(self).pending(),
    {
        let completed = match event.text_field("type") {
            Some(kind) => same_text(kind, "response.completed"),
            None => false,
        };
        if completed {
            self.last_output = match event.get("response") {
                Some(response) => match response.get("output") {
                    Some(output) => Some(output.copy()),
                    None => None,
                },
                None => None,
            };
        }
    }

    /// Takes in a stretch of the upstream and gives the messages to send.
    pub fn feed(&mut self, chunk: &[u8]) -> (messages: Vec<String>)
        ensures
            ({
                let (events, rest) = stretch_events(old(self).pending(), chunk@);
                &&& texts(messages@) == events.filter(not_done())
                &&& final(self).output() == kept_output(old(self).output(), events)
                &&& final(self).pending() == rest
            }),
    {
        let ghost before = self.output();
        let events = feed_bytes(&mut self.parser, chunk);
        let ghost all = texts(events@);
        let ghost rest = self.pending();
        let mut messages: Vec<String> = Vec::new();
        proof {
            reveal(Seq::filter);
            assert(all.take(0) =~= Seq::empty());
            assert(texts(messages@) =~= all.take(0).filter(not_done()));
        }
        for event in it: events
            invariant
                it.seq() == events@,
                all == texts(events@),
                self.pending() == rest,
                self.output() == kept_output(before, all.take(it.index())),
                texts(messages@) == all.take(it.index()).filter(not_done()),
        {
            let ghost i = it.index();
            let ghost so_far = messages@;
            proof {
                reveal(Seq::filter);
                assert(all.take(i + 1).drop_last() =~= all.take(i));
                assert(all[i] == events@[i]@);
            }
            if !same_text(event.as_str(), "[DONE]") {
                if let Some(value) = parse_json(event.as_str()) {
                    self.take_event(&value);
                }
                messages.push(event);
                proof {
                    assert(texts(messages@) =~= texts(so_far).push(all[i]));
                }
            }
        }
        proof {
            assert(all.take(all.len() as int) =~= all);
        }
        messages
    }

    /// Has a session remember the exchange, once the upstream has ended or failed.
    pub fn finish(self, session: &mut WsSessionState, request: Json)
        ensures
            final(session)@ == (Memory { request: Some(request@), output: self.output() }),
    {
        session.last_request = Some(request);
        session.last_response_output = self.last_output;
    }
}

/// A request that names no earlier response goes on from the exchange before: its input is what
/// was said, what was answered and what it says itself, in this order, and it is for the same
/// model with the same instructions unless it says otherwise.
pub proof fn law_request_goes_on(memory: Memory, request: JsonTree, kind: Seq<char>)
    requires
        memory.request is Some,
        request.list_field("input"@) is Some,
        text_or(request.text_field("previous_response_id"@), ""@).len() == 0,
    ensures
        ({
            let prepared = session_request(memory, request, kind);
            &&& prepared is Ok
            &&& prepared->Ok_0.list_field("input"@) == Some(
                continued_input(memory, request.list_field("input"@)->0),
            )
            &&& request.field("model"@) is None ==> prepared->Ok_0.field("model"@) == opt_field(
                memory.request,
                "model"@,
            )
            &&& request.field("instructions"@) is None ==> prepared->Ok_0.field("instructions"@)
                == opt_field(memory.request, "instructions"@)
        }),
{
    reveal_strlit("input");
    reveal_strlit("model");
    reveal_strlit("instructions");
    assert("input"@[0] != "model"@[0]);
    assert("input"@.len() != "instructions"@.len());
    assert("model"@.len() != "instructions"@.len());
}

/// What a request says for itself is kept, whatever the session remembers.
pub proof fn law_own_words_are_kept(
    memory: Memory,
    request: JsonTree,
    kind: Seq<char>,
    key: Seq<char>,
)
    requires
        session_request(memory, request, kind) is Ok,
        request.field(key) is Some,
        key != "input"@,
    ensures
        session_request(memory, request, kind)->Ok_0.field(key) == request.field(key),
{
}

} // verus!
