use vstd::prelude::*;

use crate::files::{look_up, FileError, FileGap, FileTable, Files};
use crate::json::{
    field_of, group_json, list_trees, no_fields, one_item, opt_tree, print_json, Fields, Json,
    JsonObject, JsonTree,
};
use crate::seqs::{flat, lemma_try_flat_fails, try_flat};
use crate::serde_bridge::printed;
use crate::text::{join, joined, or_empty, same_text, text_or, texts};

verus! {

broadcast use group_json;

/// The type of a text part: what an assistant said is output, all else is input.
pub open spec fn text_type(assistant: bool) -> Seq<char> {
    if assistant {
        "output_text"@
    } else {
        "input_text"@
    }
}

/// A text part of a message.
pub open spec fn text_part(kind: Seq<char>, text: Seq<char>) -> JsonTree {
    JsonTree::Object(
        no_fields().insert("type"@, JsonTree::Text(kind)).insert("text"@, JsonTree::Text(text)),
    )
}

/// The image that a part of the chat form points at.
pub open spec fn image_part(part: JsonTree) -> Seq<JsonTree> {
    let image = part.field("image_url"@);
    let url = match image {
        Some(image) => match image.field("url"@) {
            Some(url) => text_or(url.as_text(), ""@),
            None => text_or(image.as_text(), ""@),
        },
        None => ""@,
    };
    let own_detail = match image {
        Some(image) => image.text_field("detail"@),
        None => None,
    };
    let detail = if own_detail is Some {
        own_detail
    } else {
        part.text_field("detail"@)
    };
    let fields = no_fields().insert("type"@, JsonTree::Text("input_image"@)).insert(
        "image_url"@,
        JsonTree::Text(url),
    );
    if url.len() == 0 {
        Seq::empty()
    } else {
        match detail {
            Some(detail) => seq![
                JsonTree::Object(fields.insert("detail"@, JsonTree::Text(detail))),
            ],
            None => seq![JsonTree::Object(fields)],
        }
    }
}

/// A file part: under `source` the data or the address of the file, and its name.
pub open spec fn file_part(source: Seq<char>, value: Seq<char>, filename: Seq<char>) -> JsonTree {
    JsonTree::Object(
        no_fields().insert("type"@, JsonTree::Text("input_file"@)).insert(
            source,
            JsonTree::Text(value),
        ).insert("filename"@, JsonTree::Text(filename)),
    )
}

/// A stored file as a file part.
pub open spec fn stored_file_part(files: Files, id: Seq<char>) -> Result<Seq<JsonTree>, FileGap> {
    match look_up(files, id) {
        Ok(file) => Ok(seq![file_part("file_data"@, file.data_url, file.filename)]),
        Err(gap) => Err(gap),
    }
}

/// The file that a part of the chat form carries, points at, or names by its id.
pub open spec fn chat_file_part(files: Files, part: JsonTree) -> Result<Seq<JsonTree>, FileGap> {
    let file = match part.field("file"@) {
        Some(file) => file,
        None => JsonTree::Object(no_fields()),
    };
    let filename = text_or(file.text_field("filename"@), "upload.bin"@);
    match file.text_field("file_data"@) {
        Some(data) => Ok(seq![file_part("file_data"@, data, filename)]),
        None => match file.text_field("file_url"@) {
            Some(url) => Ok(seq![file_part("file_url"@, url, filename)]),
            None => match file.text_field("file_id"@) {
                Some(id) => stored_file_part(files, id),
                None => Ok(Seq::empty()),
            },
        },
    }
}

/// An image part with a stored file in place of the file's id.
pub open spec fn input_image_part(files: Files, part: JsonTree) -> Result<Seq<JsonTree>, FileGap> {
    match part.text_field("file_id"@) {
        Some(id) => match look_up(files, id) {
            Ok(file) => Ok(
                seq![
                    JsonTree::Object(
                        part->Object_0.remove("file_id"@).insert(
                            "image_url"@,
                            JsonTree::Text(file.data_url),
                        ),
                    ),
                ],
            ),
            Err(gap) => Err(gap),
        },
        None => Ok(seq![part]),
    }
}

/// What one part of a message becomes: a part of the upstream form, or nothing.
pub open spec fn content_part(files: Files, part: JsonTree, assistant: bool) -> Result<
    Seq<JsonTree>,
    FileGap,
> {
    let kind = text_or(part.text_field("type"@), ""@);
    if kind == "text"@ || kind == "input_text"@ || kind == "output_text"@ {
        Ok(seq![text_part(text_type(assistant), text_or(part.text_field("text"@), ""@))])
    } else if kind == "refusal"@ && assistant {
        Ok(
            seq![
                JsonTree::Object(
                    no_fields().insert("type"@, JsonTree::Text("refusal"@)).insert(
                        "refusal"@,
                        JsonTree::Text(text_or(part.text_field("refusal"@), ""@)),
                    ),
                ),
            ],
        )
    } else if kind == "image_url"@ {
        Ok(image_part(part))
    } else if kind == "input_image"@ {
        input_image_part(files, part)
    } else if kind == "file"@ {
        chat_file_part(files, part)
    } else if kind == "input_file"@ {
        match part.text_field("file_id"@) {
            Some(id) => stored_file_part(files, id),
            None => Ok(seq![part]),
        }
    } else {
        Ok(Seq::empty())
    }
}

/// `content_part` as a function of the part.
pub open spec fn each_content_part(files: Files, assistant: bool) -> spec_fn(JsonTree) -> Result<
    Seq<JsonTree>,
    FileGap,
> {
    |part: JsonTree| content_part(files, part, assistant)
}

/// What the content of a message becomes: its parts, and an empty text where none is left.
pub open spec fn content_parts(
    files: Files,
    content: Option<JsonTree>,
    assistant: bool,
) -> Result<Seq<JsonTree>, FileGap> {
    let nothing = seq![text_part(text_type(assistant), ""@)];
    match content {
        Some(JsonTree::Text(text)) => Ok(seq![text_part(text_type(assistant), text)]),
        Some(JsonTree::List(parts)) => match try_flat(parts, each_content_part(files, assistant)) {
            Ok(out) => Ok(
                if out.len() == 0 {
                    nothing
                } else {
                    out
                },
            ),
            Err(gap) => Err(gap),
        },
        _ => Ok(nothing),
    }
}

/// The outcome of a step that may lack a file, by what it holds.
pub open spec fn trees_outcome(outcome: Result<Vec<Json>, FileError>) -> Result<
    Seq<JsonTree>,
    FileGap,
> {
    match outcome {
        Ok(items) => Ok(list_trees(items@)),
        Err(error) => Err(error@),
    }
}

fn none() -> (items: Vec<Json>)
    ensures
        list_trees(items@) == Seq::<JsonTree>::empty(),
{
    let items: Vec<Json> = Vec::new();
    proof {
        assert(list_trees(items@) =~= Seq::empty());
    }
    items
}

fn make_text_part(assistant: bool, text: &str) -> (part: Json)
    ensures
        part@ == text_part(text_type(assistant), text@),
{
    let kind = if assistant {
        "output_text"
    } else {
        "input_text"
    };
    Json::Object(
        JsonObject::new().with("type", Json::text(kind)).with("text", Json::text(text)),
    )
}

fn make_file_part(source: &str, value: &str, filename: &str) -> (part: Json)
    ensures
        part@ == file_part(source@, value@, filename@),
{
    Json::Object(
        JsonObject::new().with("type", Json::text("input_file")).with(
            source,
            Json::text(value),
        ).with("filename", Json::text(filename)),
    )
}

fn make_stored_file_part(files: &FileTable, id: &str) -> (parts: Result<Vec<Json>, FileError>)
    ensures
        trees_outcome(parts) == stored_file_part(files@, id@),
{
    match files.look_up(id) {
        Ok(file) => Ok(
            one_item(make_file_part("file_data", file.data_url.as_str(), file.filename.as_str())),
        ),
        Err(error) => Err(error),
    }
}

fn make_image_part(part: &Json) -> (parts: Vec<Json>)
    ensures
        list_trees(parts@) == image_part(part@),
{
    let image = part.get("image_url");
    let url = match image {
        Some(image) => match image.get("url") {
            Some(url) => or_empty(url.as_text()),
            None => or_empty(image.as_text()),
        },
        None => "",
    };
    let own_detail = match image {
        Some(image) => image.text_field("detail"),
        None => None,
    };
    let detail = if own_detail.is_some() {
        own_detail
    } else {
        part.text_field("detail")
    };
    if url.is_empty() {
        return none();
    }
    let object = JsonObject::new().with("type", Json::text("input_image")).with(
        "image_url",
        Json::text(url),
    );
    match detail {
        Some(detail) => one_item(Json::Object(object.with("detail", Json::text(detail)))),
        None => one_item(Json::Object(object)),
    }
}

fn make_chat_file_part(files: &FileTable, part: &Json) -> (parts: Result<Vec<Json>, FileError>)
    ensures
        trees_outcome(parts) == chat_file_part(files@, part@),
{
    let file = match part.get("file") {
        Some(file) => file,
        None => {
            return Ok(none());
        },
    };
    let filename = match file.text_field("filename") {
        Some(filename) => filename,
        None => "upload.bin",
    };
    if let Some(data) = file.text_field("file_data") {
        return Ok(one_item(make_file_part("file_data", data, filename)));
    }
    if let Some(url) = file.text_field("file_url") {
        return Ok(one_item(make_file_part("file_url", url, filename)));
    }
    match file.text_field("file_id") {
        Some(id) => make_stored_file_part(files, id),
        None => Ok(none()),
    }
}

fn make_input_image_part(files: &FileTable, part: &Json) -> (parts: Result<Vec<Json>, FileError>)
    ensures
        trees_outcome(parts) == input_image_part(files@, part@),
{
    match part.text_field("file_id") {
        Some(id) => match files.look_up(id) {
            Ok(file) => {
                let mut object = match part.as_object() {
                    Some(object) => object.copy(),
                    None => JsonObject::new(),
                };
                object.remove("file_id");
                object.insert("image_url", Json::text(file.data_url.as_str()));
                Ok(one_item(Json::Object(object)))
            },
            Err(error) => Err(error),
        },
        None => Ok(one_item(part.copy())),
    }
}

fn normalize_content_part(files: &FileTable, part: &Json, assistant: bool) -> (parts: Result<
    Vec<Json>,
    FileError,
>)
    ensures
        trees_outcome(parts) == content_part(files@, part@, assistant),
{
    let kind = or_empty(part.text_field("type"));
    if same_text(kind, "text") || same_text(kind, "input_text") || same_text(kind, "output_text") {
        Ok(one_item(make_text_part(assistant, or_empty(part.text_field("text")))))
    } else if same_text(kind, "refusal") && assistant {
        Ok(
            one_item(
                Json::Object(
                    JsonObject::new().with("type", Json::text("refusal")).with(
                        "refusal",
                        Json::text(or_empty(part.text_field("refusal"))),
                    ),
                ),
            ),
        )
    } else if same_text(kind, "image_url") {
        Ok(make_image_part(part))
    } else if same_text(kind, "input_image") {
        make_input_image_part(files, part)
    } else if same_text(kind, "file") {
        make_chat_file_part(files, part)
    } else if same_text(kind, "input_file") {
        match part.text_field("file_id") {
            Some(id) => make_stored_file_part(files, id),
            None => Ok(one_item(part.copy())),
        }
    } else {
        Ok(none())
    }
}

/// Brings the content of a message into the upstream form.
pub fn normalize_content_parts(files: &FileTable, content: Option<&Json>, role: &str) -> (parts:
    Result<Vec<Json>, FileError>)
    ensures
        trees_outcome(parts) == content_parts(files@, opt_tree(content), role@ == "assistant"@),
{
    let assistant = same_text(role, "assistant");
    match content {
        Some(Json::Text(text)) => Ok(one_item(make_text_part(assistant, text.as_str()))),
        Some(Json::List(parts)) => {
            let ghost all = list_trees(parts@);
            let ghost give = each_content_part(files@, assistant);
            let mut out: Vec<Json> = Vec::new();
            proof {
                assert(list_trees(out@) =~= Seq::empty());
            }
            for i in 0..parts.len()
                invariant
                    all == list_trees(parts@),
                    opt_tree(content) == Some(JsonTree::List(all)),
                    assistant == (role@ == "assistant"@),
                    give == each_content_part(files@, assistant),
                    try_flat(all.take(i as int), give) == Ok::<Seq<JsonTree>, FileGap>(
                        list_trees(out@),
                    ),
            {
                let ghost before = list_trees(out@);
                proof {
                    assert(all.take(i + 1).drop_last() =~= all.take(i as int));
                }
                match normalize_content_part(files, &parts[i], assistant) {
                    Ok(more) => {
                        append_all(&mut out, more);
                    },
                    Err(error) => {
                        proof {
                            lemma_try_flat_fails(all, give, i + 1);
                        }
                        return Err(error);
                    },
                }
            }
            proof {
                assert(all.take(all.len() as int) =~= all);
            }
            if out.len() == 0 {
                Ok(one_item(make_text_part(assistant, "")))
            } else {
                Ok(out)
            }
        },
        _ => Ok(one_item(make_text_part(assistant, ""))),
    }
}

fn append_all(out: &mut Vec<Json>, more: Vec<Json>)
    ensures
        list_trees(final(out)@) == list_trees(old(out)@) + list_trees(more@),
{
    let mut more = more;
    let ghost added = more@;
    out.append(&mut more);
    proof {
        assert(list_trees(out@) =~= list_trees(old(out)@) + list_trees(added));
    }
}

/// A message of the user with one text part.
pub open spec fn user_message(text: Seq<char>) -> JsonTree {
    message("user"@, seq![text_part("input_text"@, text)])
}

/// A message with a role and its parts.
pub open spec fn message(role: Seq<char>, parts: Seq<JsonTree>) -> JsonTree {
    JsonTree::Object(
        no_fields().insert("role"@, JsonTree::Text(role)).insert(
            "content"@,
            JsonTree::List(parts),
        ),
    )
}

/// What a value says where a text is wanted: itself, or its JSON form.
pub open spec fn worded(value: JsonTree) -> Seq<char> {
    match value {
        JsonTree::Text(text) => text,
        other => printed(other),
    }
}

/// The fields of an input item: anything but an object is a message of the user.
pub open spec fn item_fields(item: JsonTree) -> Fields {
    match item {
        JsonTree::Object(fields) => fields,
        other => user_message(worded(other))->Object_0,
    }
}

/// The content of an input item with a role, as parts.
pub open spec fn role_content(
    files: Files,
    role: Seq<char>,
    content: JsonTree,
) -> Result<Seq<JsonTree>, FileGap> {
    let assistant = role == "assistant"@;
    match content {
        JsonTree::List(_) => content_parts(files, Some(content), assistant),
        JsonTree::Null => Ok(seq![text_part(text_type(assistant), ""@)]),
        other => Ok(seq![text_part(text_type(assistant), worded(other))]),
    }
}

/// An input item with its content as parts, where it has a role.
pub open spec fn with_role_content(files: Files, fields: Fields) -> Result<Fields, FileGap> {
    match JsonTree::Object(fields).text_field("role"@) {
        Some(role) => match field_of(fields, "content"@) {
            Some(content) => match role_content(files, role, content) {
                Ok(parts) => Ok(fields.insert("content"@, JsonTree::List(parts))),
                Err(gap) => Err(gap),
            },
            None => if role == "user"@ || role == "assistant"@ {
                Ok(
                    fields.insert(
                        "content"@,
                        JsonTree::List(seq![text_part(text_type(role == "assistant"@), ""@)]),
                    ),
                )
            } else {
                Ok(fields)
            },
        },
        None => Ok(fields),
    }
}

/// A part of an input item with the stored file in place of the file's id.
pub open spec fn resolved_part(files: Files, part: JsonTree) -> Result<Seq<JsonTree>, FileGap> {
    let kind = part.text_field("type"@);
    match part.text_field("file_id"@) {
        Some(id) => if kind == Some("input_file"@) {
            match look_up(files, id) {
                Ok(file) => {
                    let fields = part->Object_0.remove("file_id"@).insert(
                        "file_data"@,
                        JsonTree::Text(file.data_url),
                    );
                    if fields.dom().contains("filename"@) {
                        Ok(seq![JsonTree::Object(fields)])
                    } else {
                        Ok(
                            seq![
                                JsonTree::Object(
                                    fields.insert("filename"@, JsonTree::Text(file.filename)),
                                ),
                            ],
                        )
                    }
                },
                Err(gap) => Err(gap),
            }
        } else if kind == Some("input_image"@) {
            input_image_part(files, part)
        } else {
            Ok(seq![part])
        },
        None => Ok(seq![part]),
    }
}

/// `resolved_part` as a function of the part.
pub open spec fn each_resolved_part(files: Files) -> spec_fn(JsonTree) -> Result<
    Seq<JsonTree>,
    FileGap,
> {
    |part: JsonTree| resolved_part(files, part)
}

/// What an item of the input becomes.
pub open spec fn input_item(files: Files, item: JsonTree) -> Result<Seq<JsonTree>, FileGap> {
    match with_role_content(files, item_fields(item)) {
        Ok(fields) => match field_of(fields, "content"@) {
            Some(JsonTree::List(parts)) => match try_flat(parts, each_resolved_part(files)) {
                Ok(parts) => Ok(
                    seq![JsonTree::Object(fields.insert("content"@, JsonTree::List(parts)))],
                ),
                Err(gap) => Err(gap),
            },
            _ => Ok(seq![JsonTree::Object(fields)]),
        },
        Err(gap) => Err(gap),
    }
}

/// `input_item` as a function of the item.
pub open spec fn each_input_item(files: Files) -> spec_fn(JsonTree) -> Result<
    Seq<JsonTree>,
    FileGap,
> {
    |item: JsonTree| input_item(files, item)
}

/// What the input of a request becomes: its items one by one, where it is a list.
pub open spec fn input_items(files: Files, input: JsonTree) -> Result<JsonTree, FileGap> {
    match input {
        JsonTree::List(items) => match try_flat(items, each_input_item(files)) {
            Ok(items) => Ok(JsonTree::List(items)),
            Err(gap) => Err(gap),
        },
        other => Ok(other),
    }
}

/// The text of a plain text part.
pub open spec fn plain_text(part: JsonTree) -> Seq<Seq<char>> {
    let kind = part.text_field("type"@);
    if kind == Some("text"@) || kind == Some("input_text"@) {
        match part.text_field("text"@) {
            Some(text) => seq![text],
            None => Seq::empty(),
        }
    } else {
        Seq::empty()
    }
}

/// `plain_text` as a function of the part.
pub open spec fn each_plain_text() -> spec_fn(JsonTree) -> Seq<Seq<char>> {
    |part: JsonTree| plain_text(part)
}

/// Whether a role gives instructions instead of taking part in the conversation.
pub open spec fn instructs(role: Option<Seq<char>>) -> bool {
    role == Some("system"@) || role == Some("developer"@)
}

/// The instructions that a chat message gives.
pub open spec fn message_instructions(message: JsonTree) -> Seq<Seq<char>> {
    if instructs(message.text_field("role"@)) {
        match message.field("content"@) {
            Some(JsonTree::Text(text)) => seq![text],
            Some(JsonTree::List(parts)) => flat(parts, each_plain_text()),
            _ => Seq::empty(),
        }
    } else {
        Seq::empty()
    }
}

/// `message_instructions` as a function of the message.
pub open spec fn each_message_instructions() -> spec_fn(JsonTree) -> Seq<Seq<char>> {
    |message: JsonTree| message_instructions(message)
}

/// A tool call of a chat message as an input item.
pub open spec fn function_call_item(call: JsonTree) -> JsonTree {
    let function = match call.field("function"@) {
        Some(function) => function,
        None => JsonTree::Null,
    };
    JsonTree::Object(
        no_fields().insert("type"@, JsonTree::Text("function_call"@)).insert(
            "name"@,
            JsonTree::Text(text_or(function.text_field("name"@), ""@)),
        ).insert(
            "arguments"@,
            match function.field("arguments"@) {
                Some(arguments) => arguments,
                None => JsonTree::Text("{}"@),
            },
        ).insert("call_id"@, JsonTree::Text(text_or(call.text_field("id"@), ""@))),
    )
}

/// The result of a tool call as an input item.
pub open spec fn function_result_item(message: JsonTree) -> JsonTree {
    JsonTree::Object(
        no_fields().insert("type"@, JsonTree::Text("function_call_output"@)).insert(
            "call_id"@,
            JsonTree::Text(text_or(message.text_field("tool_call_id"@), ""@)),
        ).insert(
            "output"@,
            match message.field("content"@) {
                Some(content) => content,
                None => JsonTree::Text(""@),
            },
        ),
    )
}

/// Whether a message has any content to speak of.
pub open spec fn has_content(content: Option<JsonTree>) -> bool {
    match content {
        Some(JsonTree::Text(text)) => text.len() > 0,
        Some(JsonTree::List(parts)) => parts.len() > 0,
        _ => false,
    }
}

/// The tool calls of a chat message as input items.
pub open spec fn tool_call_items(message: JsonTree) -> Seq<JsonTree> {
    match message.list_field("tool_calls"@) {
        Some(calls) => calls.map_values(|call: JsonTree| function_call_item(call)),
        None => Seq::empty(),
    }
}

/// What the assistant said, as an input item: left out where it only called tools.
pub open spec fn assistant_items(files: Files, message_tree: JsonTree) -> Result<
    Seq<JsonTree>,
    FileGap,
> {
    let content = message_tree.field("content"@);
    if has_content(content) {
        match content_parts(files, content, true) {
            Ok(parts) => Ok(seq![message("assistant"@, parts)]),
            Err(gap) => Err(gap),
        }
    } else if message_tree.list_field("tool_calls"@) is None {
        Ok(seq![message("assistant"@, seq![text_part("output_text"@, ""@)])])
    } else {
        Ok(Seq::empty())
    }
}

/// The input items that a chat message becomes.
pub open spec fn message_items(files: Files, message_tree: JsonTree) -> Result<
    Seq<JsonTree>,
    FileGap,
> {
    let role = text_or(message_tree.text_field("role"@), ""@);
    if role == "user"@ {
        match content_parts(files, message_tree.field("content"@), false) {
            Ok(parts) => Ok(seq![message("user"@, parts)]),
            Err(gap) => Err(gap),
        }
    } else if role == "assistant"@ {
        match assistant_items(files, message_tree) {
            Ok(said) => Ok(said + tool_call_items(message_tree)),
            Err(gap) => Err(gap),
        }
    } else if role == "tool"@ {
        Ok(seq![function_result_item(message_tree)])
    } else {
        Ok(Seq::empty())
    }
}

/// `message_items` as a function of the message.
pub open spec fn each_message_items(files: Files) -> spec_fn(JsonTree) -> Result<
    Seq<JsonTree>,
    FileGap,
> {
    |message: JsonTree| message_items(files, message)
}

/// The outcome of a step that gives one value or lacks a file.
pub open spec fn tree_outcome(outcome: Result<Json, FileError>) -> Result<JsonTree, FileGap> {
    match outcome {
        Ok(json) => Ok(json@),
        Err(error) => Err(error@),
    }
}

/// The outcome of a step that gives an object or lacks a file.
pub open spec fn fields_outcome(outcome: Result<JsonObject, FileError>) -> Result<
    Fields,
    FileGap,
> {
    match outcome {
        Ok(object) => Ok(object@),
        Err(error) => Err(error@),
    }
}

fn make_message(role: &str, parts: Vec<Json>) -> (made: Json)
    ensures
        made@ == message(role@, list_trees(parts@)),
{
    Json::Object(
        JsonObject::new().with("role", Json::text(role)).with("content", Json::List(parts)),
    )
}

pub(crate) fn make_user_message(text: &str) -> (made: Json)
    ensures
        made@ == user_message(text@),
{
    make_message("user", one_item(make_text_part(false, text)))
}

/// What a value says where a text is wanted.
pub(crate) fn wording(value: &Json) -> (text: String)
    ensures
        text@ == worded(value@),
{
    match value {
        Json::Text(text) => text.clone(),
        other => print_json(other),
    }
}

fn make_item_fields(item: &Json) -> (object: JsonObject)
    ensures
        object@ == item_fields(item@),
{
    match item {
        Json::Object(object) => object.copy(),
        other => {
            let text = wording(other);
            JsonObject::new().with("role", Json::text("user")).with(
                "content",
                Json::List(one_item(make_text_part(false, text.as_str()))),
            )
        },
    }
}

fn make_role_content(files: &FileTable, role: &str, content: &Json) -> (parts: Result<
    Vec<Json>,
    FileError,
>)
    ensures
        trees_outcome(parts) == role_content(files@, role@, content@),
{
    let assistant = same_text(role, "assistant");
    match content {
        Json::List(_) => normalize_content_parts(files, Some(content), role),
        Json::Null => Ok(one_item(make_text_part(assistant, ""))),
        other => {
            let text = wording(other);
            Ok(one_item(make_text_part(assistant, text.as_str())))
        },
    }
}

fn add_role_content(files: &FileTable, object: JsonObject) -> (changed: Result<
    JsonObject,
    FileError,
>)
    ensures
        fields_outcome(changed) == with_role_content(files@, object@),
{
    let item = Json::Object(object);
    let role = match item.text_field("role") {
        Some(role) => role.to_owned(),
        None => {
            return Ok(into_object(item));
        },
    };
    let parts = match item.get("content") {
        Some(content) => match make_role_content(files, role.as_str(), content) {
            Ok(parts) => parts,
            Err(error) => {
                return Err(error);
            },
        },
        None => {
            if !same_text(role.as_str(), "user") && !same_text(role.as_str(), "assistant") {
                return Ok(into_object(item));
            }
            one_item(make_text_part(same_text(role.as_str(), "assistant"), ""))
        },
    };
    Ok(into_object(item).with("content", Json::List(parts)))
}

fn into_object(item: Json) -> (object: JsonObject)
    requires
        item@ is Object,
    ensures
        JsonTree::Object(object@) == item@,
{
    match item {
        Json::Object(object) => object,
        _ => JsonObject::new(),
    }
}

fn resolve_part(files: &FileTable, part: &Json) -> (parts: Result<Vec<Json>, FileError>)
    ensures
        trees_outcome(parts) == resolved_part(files@, part@),
{
    let id = match part.text_field("file_id") {
        Some(id) => id,
        None => {
            return Ok(one_item(part.copy()));
        },
    };
    let kind = match part.text_field("type") {
        Some(kind) => kind,
        None => {
            return Ok(one_item(part.copy()));
        },
    };
    if same_text(kind, "input_file") {
        match files.look_up(id) {
            Ok(file) => {
                let mut object = match part.as_object() {
                    Some(object) => object.copy(),
                    None => JsonObject::new(),
                };
                object.remove("file_id");
                object.insert("file_data", Json::text(file.data_url.as_str()));
                if !object.contains_key("filename") {
                    object.insert("filename", Json::text(file.filename.as_str()));
                }
                Ok(one_item(Json::Object(object)))
            },
            Err(error) => Err(error),
        }
    } else if same_text(kind, "input_image") {
        make_input_image_part(files, part)
    } else {
        Ok(one_item(part.copy()))
    }
}

fn resolve_parts(files: &FileTable, parts: &Vec<Json>) -> (resolved: Result<Vec<Json>, FileError>)
    ensures
        trees_outcome(resolved) == try_flat(list_trees(parts@), each_resolved_part(files@)),
{
    let ghost all = list_trees(parts@);
    let ghost give = each_resolved_part(files@);
    let mut out: Vec<Json> = Vec::new();
    proof {
        assert(list_trees(out@) =~= Seq::empty());
    }
    for i in 0..parts.len()
        invariant
            all == list_trees(parts@),
            give == each_resolved_part(files@),
            try_flat(all.take(i as int), give) == Ok::<Seq<JsonTree>, FileGap>(list_trees(out@)),
    {
        proof {
            assert(all.take(i + 1).drop_last() =~= all.take(i as int));
        }
        match resolve_part(files, &parts[i]) {
            Ok(more) => {
                append_all(&mut out, more);
            },
            Err(error) => {
                proof {
                    lemma_try_flat_fails(all, give, i + 1);
                }
                return Err(error);
            },
        }
    }
    proof {
        assert(all.take(all.len() as int) =~= all);
    }
    Ok(out)
}

fn normalize_input_item(files: &FileTable, item: &Json) -> (items: Result<Vec<Json>, FileError>)
    ensures
        trees_outcome(items) == input_item(files@, item@),
{
    let object = match add_role_content(files, make_item_fields(item)) {
        Ok(object) => object,
        Err(error) => {
            return Err(error);
        },
    };
    let parts = match object.get("content") {
        Some(Json::List(parts)) => match resolve_parts(files, parts) {
            Ok(parts) => parts,
            Err(error) => {
                return Err(error);
            },
        },
        _ => {
            return Ok(one_item(Json::Object(object)));
        },
    };
    Ok(one_item(Json::Object(object.with("content", Json::List(parts)))))
}

/// Brings the input of a request into the upstream form, item by item.
pub fn normalize_input_items(files: &FileTable, input: &Json) -> (normalized: Result<
    Json,
    FileError,
>)
    ensures
        tree_outcome(normalized) == input_items(files@, input@),
{
    let items = match input {
        Json::List(items) => items,
        other => {
            return Ok(other.copy());
        },
    };
    let ghost all = list_trees(items@);
    let ghost give = each_input_item(files@);
    let mut out: Vec<Json> = Vec::new();
    proof {
        assert(list_trees(out@) =~= Seq::empty());
    }
    for i in 0..items.len()
        invariant
            all == list_trees(items@),
            input@ == JsonTree::List(all),
            give == each_input_item(files@),
            try_flat(all.take(i as int), give) == Ok::<Seq<JsonTree>, FileGap>(list_trees(out@)),
    {
        proof {
            assert(all.take(i + 1).drop_last() =~= all.take(i as int));
        }
        match normalize_input_item(files, &items[i]) {
            Ok(more) => {
                append_all(&mut out, more);
            },
            Err(error) => {
                proof {
                    lemma_try_flat_fails(all, give, i + 1);
                }
                return Err(error);
            },
        }
    }
    proof {
        assert(all.take(all.len() as int) =~= all);
    }
    Ok(Json::List(out))
}

fn add_plain_texts(parts: &Vec<Json>, out: &mut Vec<String>)
    ensures
        texts(final(out)@) == texts(old(out)@) + flat(list_trees(parts@), each_plain_text()),
{
    let ghost all = list_trees(parts@);
    let ghost give = each_plain_text();
    let ghost before = texts(out@);
    for i in 0..parts.len()
        invariant
            all == list_trees(parts@),
            give == each_plain_text(),
            texts(out@) == before + flat(all.take(i as int), give),
    {
        proof {
            assert(all.take(i + 1).drop_last() =~= all.take(i as int));
        }
        let ghost so_far = out@;
        let part = &parts[i];
        if let Some(kind) = part.text_field("type") {
            if same_text(kind, "text") || same_text(kind, "input_text") {
                if let Some(text) = part.text_field("text") {
                    out.push(text.to_owned());
                    proof {
                        assert(texts(out@) =~= texts(so_far) + seq![text@]);
                    }
                }
            }
        }
        proof {
            assert(texts(out@) =~= texts(so_far) + plain_text(part@));
            assert(plain_text(part@) == give(all.take(i + 1).last()));
            assert(texts(out@) =~= before + flat(all.take(i + 1), give));
        }
    }
    proof {
        assert(all.take(all.len() as int) =~= all);
    }
}

/// The text of instructions: the plain text parts of a list, or what else stands there.
pub open spec fn instruction_text(content: JsonTree) -> Seq<char> {
    match content {
        JsonTree::List(parts) => joined(flat(parts, each_plain_text()), "\n\n"@),
        other => worded(other),
    }
}

/// The text of the content of an instructing message.
pub fn content_to_instruction_text(content: &Json) -> (text: String)
    ensures
        text@ == instruction_text(content@),
{
    match content {
        Json::List(parts) => {
            let mut found: Vec<String> = Vec::new();
            add_plain_texts(parts, &mut found);
            proof {
                assert(texts(found@) =~= flat(list_trees(parts@), each_plain_text()));
            }
            join(&found, "\n\n")
        },
        other => wording(other),
    }
}

fn add_instructions(message: &Json, out: &mut Vec<String>)
    ensures
        texts(final(out)@) == texts(old(out)@) + message_instructions(message@),
{
    let ghost before = out@;
    if let Some(role) = message.text_field("role") {
        if same_text(role, "system") || same_text(role, "developer") {
            match message.get("content") {
                Some(Json::Text(text)) => {
                    out.push(text.clone());
                    proof {
                        assert(texts(out@) =~= texts(before) + seq![text@]);
                    }
                },
                Some(Json::List(parts)) => {
                    add_plain_texts(parts, out);
                },
                _ => {},
            }
        }
    }
    proof {
        assert(texts(out@) =~= texts(before) + message_instructions(message@));
    }
}

fn make_function_call_item(call: &Json) -> (item: Json)
    ensures
        item@ == function_call_item(call@),
{
    let function = match call.get("function") {
        Some(function) => function.copy(),
        None => Json::Null,
    };
    let arguments = match function.get("arguments") {
        Some(arguments) => arguments.copy(),
        None => Json::text("{}"),
    };
    Json::Object(
        JsonObject::new().with("type", Json::text("function_call")).with(
            "name",
            Json::text(or_empty(function.text_field("name"))),
        ).with("arguments", arguments).with(
            "call_id",
            Json::text(or_empty(call.text_field("id"))),
        ),
    )
}

fn make_tool_call_items(message: &Json) -> (items: Vec<Json>)
    ensures
        list_trees(items@) == tool_call_items(message@),
{
    let calls = match message.list_field("tool_calls") {
        Some(calls) => calls,
        None => {
            return none();
        },
    };
    let ghost all = list_trees(calls@);
    let mut out: Vec<Json> = Vec::new();
    for i in 0..calls.len()
        invariant
            all == list_trees(calls@),
            out@.len() == i,
            forall|k: int|
                0 <= k < i ==> (#[trigger] list_trees(out@)[k]) == function_call_item(all[k]),
    {
        let ghost before = out@;
        out.push(make_function_call_item(&calls[i]));
        proof {
            assert(list_trees(out@) == list_trees(before).push(function_call_item(all[i as int])));
        }
    }
    proof {
        assert(list_trees(out@) =~= tool_call_items(message@));
    }
    out
}

fn make_function_result_item(message: &Json) -> (item: Json)
    ensures
        item@ == function_result_item(message@),
{
    let output = match message.get("content") {
        Some(content) => content.copy(),
        None => Json::text(""),
    };
    Json::Object(
        JsonObject::new().with("type", Json::text("function_call_output")).with(
            "call_id",
            Json::text(or_empty(message.text_field("tool_call_id"))),
        ).with("output", output),
    )
}

fn make_assistant_items(files: &FileTable, message: &Json) -> (items: Result<Vec<Json>, FileError>)
    ensures
        trees_outcome(items) == assistant_items(files@, message@),
{
    let content = message.get("content");
    let said = match content {
        Some(Json::Text(text)) => !text.as_str().is_empty(),
        Some(Json::List(parts)) => parts.len() > 0,
        _ => false,
    };
    if said {
        match normalize_content_parts(files, content, "assistant") {
            Ok(parts) => Ok(one_item(make_message("assistant", parts))),
            Err(error) => Err(error),
        }
    } else if message.list_field("tool_calls").is_none() {
        Ok(one_item(make_message("assistant", one_item(make_text_part(true, "")))))
    } else {
        Ok(none())
    }
}

fn make_message_items(files: &FileTable, message: &Json) -> (items: Result<Vec<Json>, FileError>)
    ensures
        trees_outcome(items) == message_items(files@, message@),
{
    let role = or_empty(message.text_field("role"));
    if same_text(role, "user") {
        proof {
            reveal_strlit("user");
            reveal_strlit("assistant");
            assert("user"@.len() != "assistant"@.len());
        }
        match normalize_content_parts(files, message.get("content"), "user") {
            Ok(parts) => Ok(one_item(make_message("user", parts))),
            Err(error) => Err(error),
        }
    } else if same_text(role, "assistant") {
        match make_assistant_items(files, message) {
            Ok(said) => {
                let mut out = said;
                append_all(&mut out, make_tool_call_items(message));
                Ok(out)
            },
            Err(error) => Err(error),
        }
    } else if same_text(role, "tool") {
        Ok(one_item(make_function_result_item(message)))
    } else {
        Ok(none())
    }
}

/// What chat messages become, with the instructions that they give.
pub open spec fn messages_input(files: Files, messages: Seq<JsonTree>) -> Result<
    (Seq<JsonTree>, Seq<char>),
    FileGap,
> {
    match try_flat(messages, each_message_items(files)) {
        Ok(items) => Ok(
            (items, joined(flat(messages, each_message_instructions()), "\n\n"@)),
        ),
        Err(gap) => Err(gap),
    }
}

/// The outcome of turning chat messages into input, by what it holds.
pub open spec fn input_outcome(outcome: Result<(Vec<Json>, String), FileError>) -> Result<
    (Seq<JsonTree>, Seq<char>),
    FileGap,
> {
    match outcome {
        Ok((items, instructions)) => Ok((list_trees(items@), instructions@)),
        Err(error) => Err(error@),
    }
}

/// Turns chat messages into input items and instructions.
pub fn messages_to_input(files: &FileTable, messages: &Vec<Json>) -> (input: Result<
    (Vec<Json>, String),
    FileError,
>)
    ensures
        input_outcome(input) == messages_input(files@, list_trees(messages@)),
{
    let ghost all = list_trees(messages@);
    let ghost give = each_message_items(files@);
    let ghost tell = each_message_instructions();
    let mut out: Vec<Json> = Vec::new();
    let mut found: Vec<String> = Vec::new();
    proof {
        assert(list_trees(out@) =~= Seq::empty());
        assert(texts(found@) =~= Seq::empty());
    }
    for i in 0..messages.len()
        invariant
            all == list_trees(messages@),
            give == each_message_items(files@),
            tell == each_message_instructions(),
            try_flat(all.take(i as int), give) == Ok::<Seq<JsonTree>, FileGap>(list_trees(out@)),
            texts(found@) == flat(all.take(i as int), tell),
    {
        proof {
            assert(all.take(i + 1).drop_last() =~= all.take(i as int));
        }
        match make_message_items(files, &messages[i]) {
            Ok(more) => {
                append_all(&mut out, more);
            },
            Err(error) => {
                proof {
                    lemma_try_flat_fails(all, give, i + 1);
                }
                return Err(error);
            },
        }
        add_instructions(&messages[i], &mut found);
    }
    proof {
        assert(all.take(all.len() as int) =~= all);
    }
    Ok((out, join(&found, "\n\n")))
}

} // verus!
