use vstd::prelude::*;

use std::time::SystemTime;

use crate::clock::{now_unix, unix_time};
use crate::config::{model_names, supported_models};
use crate::errors::{json_error_with_type, ErrorAnswer, ErrorResponse};
use crate::files::FileTable;
use crate::json::{opt_tree, Json, JsonTree};
use crate::normalization::fields::wants_usage;
use crate::normalization::{chat_request, responses_request, NormalizeError};
use crate::responses::relay::calls_tools;
use crate::state::ClientStreamOptions;
use crate::streaming::chunks::event_line;
use crate::streaming::message::{chat_message, output_items};
use crate::streaming::tool_calls::ToolStreamState;
use crate::text::{opt_string, opt_text, same_text, texts};
use crate::text_map::{string_table, TextMap};
use crate::types::{ModelItem, ModelsResponse};

verus! {

/// Speaks to the upstream for the public API.
pub struct CodexAdapter;

/// Whether an item is the entry for a model on offer.
pub open spec fn is_entry(item: ModelItem, name: Seq<char>, created: i64) -> bool {
    &&& item.id@ == name
    &&& item.object@ == "model"@
    &&& item.created == created
    &&& item.owned_by@ == "openai"@
}

/// Whether a list holds the entries for all models on offer, in their order.
pub open spec fn lists_models(items: Seq<ModelItem>, created: i64) -> bool {
    &&& items.len() == model_names().len()
    &&& forall|i: int|
        0 <= i < items.len() ==> is_entry(#[trigger] items[i], model_names()[i], created)
}

impl CodexAdapter {
    pub fn new() -> (adapter: CodexAdapter)
        ensures
            adapter == CodexAdapter,
    {
        CodexAdapter
    }

    /// The models on offer, as of a time.
    pub fn list_models_at(&self, created: i64) -> (items: Vec<ModelItem>)
        ensures
            lists_models(items@, created),
    {
        let names = supported_models();
        let mut items: Vec<ModelItem> = Vec::new();
        for i in 0..names.len()
            invariant
                texts(names@) == model_names(),
                items@.len() == i,
                forall|k: int|
                    0 <= k < i ==> is_entry(#[trigger] items@[k], model_names()[k], created),
        {
            proof {
                assert(texts(names@)[i as int] == names@[i as int]@);
            }
            items.push(
                ModelItem { id: names[i].clone(), object: "model", created, owned_by: "openai" },
            );
        }
        items
    }

    /// The models on offer.
    pub fn list_models(&self) -> (items: Vec<ModelItem>)
        ensures
            exists|instant: SystemTime| lists_models(items@, #[trigger] unix_time(instant)),
    {
        self.list_models_at(now_unix())
    }

    /// The model with an id, as of a time, where it is on offer.
    pub fn get_model_at(&self, model_id: &str, created: i64) -> (item: Option<ModelItem>)
        ensures
            item is Some == model_names().contains(model_id@),
            item matches Some(item) ==> is_entry(item, model_id@, created),
    {
        let items = self.list_models_at(created);
        for item in it: items
            invariant
                it.seq() == items@,
                lists_models(items@, created),
                forall|k: int| 0 <= k < it.index() ==> (#[trigger] model_names()[k]) != model_id@,
        {
            proof {
                assert(is_entry(items@[it.index()], model_names()[it.index()], created));
            }
            if same_text(item.id.as_str(), model_id) {
                proof {
                    assert(model_names()[it.index()] == model_id@);
                }
                return Some(item);
            }
        }
        None
    }

    /// The model with an id, where it is on offer.
    pub fn get_model(&self, model_id: &str) -> (item: Option<ModelItem>)
        ensures
            item is Some == model_names().contains(model_id@),
            item matches Some(item) ==> exists|instant: SystemTime|
                is_entry(item, model_id@, #[trigger] unix_time(instant)),
    {
        self.get_model_at(model_id, now_unix())
    }

    /// Brings a request of the responses route into the form in which it is sent upstream.
    pub fn normalize_responses_payload(
        &self,
        aliases: &TextMap<String>,
        files: &FileTable,
        default: Option<&str>,
        payload: &mut Json,
    ) -> (outcome: Result<(), NormalizeError>)
        ensures
            (match responses_request(
                string_table(*aliases),
                files@,
                opt_text(default),
                old(payload)@,
            ) {
                Ok(request) => outcome is Ok && final(payload)@ == JsonTree::Object(request),
                Err(refusal) => outcome is Err && outcome->Err_0@ == refusal && final(payload)@
                    == old(payload)@,
            }),
    {
        crate::normalization::normalize_responses_payload(aliases, files, default, payload)
    }

    /// Brings a request of the chat route into the form in which it is sent upstream.
    pub fn normalize_chat_payload(
        &self,
        aliases: &TextMap<String>,
        files: &FileTable,
        default: Option<&str>,
        payload: &mut Json,
    ) -> (outcome: Result<ClientStreamOptions, NormalizeError>)
        ensures
            (match chat_request(string_table(*aliases), files@, opt_text(default), old(payload)@) {
                Ok(request) => outcome is Ok && final(payload)@ == JsonTree::Object(request)
                    && outcome->Ok_0.include_usage == wants_usage(old(payload)@->Object_0),
                Err(refusal) => outcome is Err && outcome->Err_0@ == refusal && final(payload)@
                    == old(payload)@,
            }),
    {
        crate::normalization::normalize_chat_payload(aliases, files, default, payload)
    }

    /// The frame of a chat completion stream that an event of the upstream makes, if any.
    pub fn map_response_event_to_chat_chunk(
        &self,
        event: &Json,
        state: &mut ToolStreamState,
        chunk_id: &str,
        created: i64,
        model: &str,
    ) -> (line: Option<String>)
        ensures
            (opt_string(line), final(state)@) == event_line(
                event@,
                old(state)@,
                chunk_id@,
                created,
                model@,
            ),
    {
        crate::streaming::chunks::map_response_event_to_chat_chunk(
            event,
            state,
            chunk_id,
            created,
            model,
        )
    }

    /// Turns the output of a response into a chat message.
    pub fn response_to_chat_message(&self, output: Option<&Json>) -> (message: Json)
        ensures
            message@ == chat_message(output_items(opt_tree(output))),
    {
        crate::streaming::message::response_to_chat_message(output)
    }

    /// Whether the output of a response has tool calls in it.
    pub fn response_output_indicates_tool_calls(&self, response: Option<&Json>) -> (answer: bool)
        ensures
            answer == calls_tools(opt_tree(response)),
    {
        crate::responses::relay::response_output_indicates_tool_calls(response)
    }
}

/// The list of the models on offer as the API shows it.
pub fn models_response(data: Vec<ModelItem>) -> (response: ModelsResponse)
    ensures
        response.object@ == "list"@,
        response.data == data,
{
    ModelsResponse { object: "list", data }
}

/// The answer where a model is not on offer.
pub fn model_not_found() -> (error: ErrorResponse)
    ensures
        error@ == (ErrorAnswer {
            status: 404,
            message: "Model not found"@,
            error_type: Some("invalid_request_error"@),
            code: None,
            param: None,
        }),
{
    json_error_with_type(404, "Model not found", Some("invalid_request_error"))
}

} // verus!
