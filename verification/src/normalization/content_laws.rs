use vstd::prelude::*;

use crate::files::{FileContent, FileGap, Files};
use crate::json::{field_of, JsonTree};
use crate::normalization::content::{
    assistant_items, content_part, content_parts, each_content_part, each_input_item,
    each_message_items, each_resolved_part, input_item, item_fields, message_items, resolved_part,
    role_content, text_part, text_type, tool_call_items, with_role_content,
};
use crate::normalization::settling::{
    lemma_item_words, lemma_parts_resolved, lemma_role_content_stays, lemma_text_part_stays,
    part_stays,
};
use crate::seqs::try_flat;
use crate::serde_bridge::printed;

verus! {

/// What tells the names in a part of a message apart.
proof fn lemma_part_words()
    ensures
        ""@.len() == 0,
        "type"@.len() == 4 && "type"@[0] == 't' && "type"@[1] == 'y',
        "text"@.len() == 4 && "text"@[0] == 't' && "text"@[1] == 'e',
        "refusal"@.len() == 7 && "refusal"@[0] == 'r',
        "image_url"@.len() == 9 && "image_url"@[0] == 'i',
        "url"@.len() == 3,
        "detail"@.len() == 6 && "detail"@[0] == 'd',
        "file"@.len() == 4 && "file"@[0] == 'f',
        "file_id"@.len() == 7 && "file_id"@[0] == 'f',
        "file_data"@.len() == 9 && "file_data"@[0] == 'f',
        "file_url"@.len() == 8 && "file_url"@[1] == 'i' && "file_url"@[4] == '_',
        "filename"@.len() == 8 && "filename"@[1] == 'i' && "filename"@[4] == 'n',
        "input_text"@.len() == 10 && "input_text"@[0] == 'i' && "input_text"@[6] == 't',
        "output_text"@.len() == 11 && "output_text"@[0] == 'o',
        "input_image"@.len() == 11 && "input_image"@[0] == 'i',
        "input_file"@.len() == 10 && "input_file"@[0] == 'i' && "input_file"@[6] == 'f',
        "role"@.len() == 4 && "role"@[0] == 'r',
        "content"@.len() == 7 && "content"@[0] == 'c' && "content"@[1] == 'o',
        "user"@.len() == 4 && "user"@[0] == 'u',
        "assistant"@.len() == 9 && "assistant"@[0] == 'a' && "assistant"@[1] == 's',
        "tool"@.len() == 4 && "tool"@[0] == 't' && "tool"@[1] == 'o',
        "name"@.len() == 4 && "name"@[0] == 'n',
        "arguments"@.len() == 9 && "arguments"@[0] == 'a' && "arguments"@[1] == 'r',
        "call_id"@.len() == 7 && "call_id"@[0] == 'c' && "call_id"@[1] == 'a',
        "output"@.len() == 6 && "output"@[0] == 'o',
        "function_call"@.len() == 13,
        "function_call_output"@.len() == 20,
        "function"@.len() == 8 && "function"@[1] == 'u',
        "id"@.len() == 2,
        "tool_call_id"@.len() == 12,
        "tool_calls"@.len() == 10 && "tool_calls"@[0] == 't',
{
    reveal_strlit("");
    reveal_strlit("type");
    reveal_strlit("text");
    reveal_strlit("refusal");
    reveal_strlit("image_url");
    reveal_strlit("url");
    reveal_strlit("detail");
    reveal_strlit("file");
    reveal_strlit("file_id");
    reveal_strlit("file_data");
    reveal_strlit("file_url");
    reveal_strlit("filename");
    reveal_strlit("input_text");
    reveal_strlit("output_text");
    reveal_strlit("input_image");
    reveal_strlit("input_file");
    reveal_strlit("role");
    reveal_strlit("content");
    reveal_strlit("user");
    reveal_strlit("assistant");
    reveal_strlit("tool");
    reveal_strlit("name");
    reveal_strlit("arguments");
    reveal_strlit("call_id");
    reveal_strlit("output");
    reveal_strlit("function_call");
    reveal_strlit("function_call_output");
    reveal_strlit("function");
    reveal_strlit("id");
    reveal_strlit("tool_call_id");
    reveal_strlit("tool_calls");
}

/// Groups of items, one group behind the other.
pub open spec fn all_of<A>(groups: Seq<Seq<A>>) -> Seq<A>
    decreases groups.len(),
{
    if groups.len() == 0 {
        Seq::empty()
    } else {
        all_of(groups.drop_last()) + groups.last()
    }
}

pub(crate) proof fn lemma_groups<A, B, E>(
    items: Seq<A>,
    give: spec_fn(A) -> Result<Seq<B>, E>,
) -> (groups: Seq<Seq<B>>)
    requires
        try_flat(items, give) is Ok,
    ensures
        groups.len() == items.len(),
        forall|i: int|
            0 <= i < items.len() ==> give(items[i]) == Ok::<Seq<B>, E>(#[trigger] groups[i]),
        try_flat(items, give)->Ok_0 == all_of(groups),
    decreases items.len(),
{
    if items.len() == 0 {
        Seq::empty()
    } else {
        let fewer = lemma_groups(items.drop_last(), give);
        let groups = fewer.push(give(items.last())->Ok_0);
        assert(groups.drop_last() =~= fewer);
        assert forall|i: int| 0 <= i < items.len() implies give(items[i]) == Ok::<Seq<B>, E>(
            #[trigger] groups[i],
        ) by {
            if i < fewer.len() {
                assert(items.drop_last()[i] == items[i]);
                assert(groups[i] == fewer[i]);
            }
        }
        groups
    }
}

pub(crate) proof fn lemma_all_succeed<A, B, E>(items: Seq<A>, give: spec_fn(A) -> Result<Seq<B>, E>)
    requires
        forall|i: int| 0 <= i < items.len() ==> give(#[trigger] items[i]) is Ok,
    ensures
        try_flat(items, give) is Ok,
    decreases items.len(),
{
    if items.len() > 0 {
        let fewer = items.drop_last();
        assert forall|i: int| 0 <= i < fewer.len() implies give(#[trigger] fewer[i]) is Ok by {
            assert(fewer[i] == items[i]);
        }
        lemma_all_succeed(fewer, give);
        assert(give(items[items.len() - 1]) is Ok);
    }
}

/// Whether a part is a text of a kind, and nothing more.
pub open spec fn is_text(part: JsonTree, kind: Seq<char>, text: Seq<char>) -> bool {
    &&& part.text_field("type"@) == Some(kind)
    &&& part.text_field("text"@) == Some(text)
    &&& forall|key: Seq<char>| key != "type"@ && key != "text"@ ==> part.field(key) is None
}

/// The kind of text that a role speaks: what the assistant said is output, all else is input.
pub open spec fn kind_of_text(assistant: bool) -> Seq<char> {
    if assistant {
        "output_text"@
    } else {
        "input_text"@
    }
}

/// A text that may be missing.
pub open spec fn or_nothing(text: Option<Seq<char>>) -> Seq<char> {
    if text is Some {
        text->0
    } else {
        ""@
    }
}

/// Whether a part carries a stored file: its data and its name.
pub open spec fn carries_file(part: JsonTree, file: FileContent) -> bool {
    &&& part.text_field("type"@) == Some("input_file"@)
    &&& part.text_field("file_data"@) == Some(file.data_url)
    &&& part.text_field("filename"@) == Some(file.filename)
    &&& forall|key: Seq<char>|
        key != "type"@ && key != "file_data"@ && key != "filename"@ ==> #[trigger] part.field(
            key,
        ) is None
}

/// Whether a stored file is known and can be had.
pub open spec fn is_at_hand(files: Files, id: Seq<char>) -> bool {
    files.dom().contains(id) && files[id] is Some
}

/// Whether an image part is one with a stored file in place of its id.
pub open spec fn is_image_with_file(
    image: JsonTree,
    part: JsonTree,
    file: FileContent,
) -> bool {
    &&& image.text_field("image_url"@) == Some(file.data_url)
    &&& image.field("file_id"@) is None
    &&& forall|key: Seq<char>|
        key != "image_url"@ && key != "file_id"@ ==> image.field(key) == part.field(key)
}

/// The address of the image that a part of the chat form points at.
pub open spec fn image_address(part: JsonTree) -> Seq<char> {
    match part.field("image_url"@) {
        Some(image) => if image.field("url"@) is Some {
            or_nothing(image.text_field("url"@))
        } else {
            or_nothing(image.as_text())
        },
        None => ""@,
    }
}

/// How closely to look at the image that a part of the chat form points at.
pub open spec fn image_detail(part: JsonTree) -> Option<Seq<char>> {
    match part.field("image_url"@) {
        Some(image) => if image.text_field("detail"@) is Some {
            image.text_field("detail"@)
        } else {
            part.text_field("detail"@)
        },
        None => part.text_field("detail"@),
    }
}

/// What a part of the chat form says of the file that it carries.
pub open spec fn of_file(part: JsonTree, key: Seq<char>) -> Option<Seq<char>> {
    match part.field("file"@) {
        Some(file) => file.text_field(key),
        None => None,
    }
}

/// Whether a part is a file of the chat form: under its source, and with its name.
pub open spec fn is_chat_file(made: JsonTree, part: JsonTree, source: Seq<char>) -> bool {
    &&& made.text_field("type"@) == Some("input_file"@)
    &&& made.text_field(source) == of_file(part, source)
    &&& made.text_field("filename"@) == Some(
        if of_file(part, "filename"@) is Some {
            of_file(part, "filename"@)->0
        } else {
            "upload.bin"@
        },
    )
    &&& forall|key: Seq<char>|
        key != "type"@ && key != source && key != "filename"@ ==> #[trigger] made.field(key) is None
}

/// Whether a part of a message became these parts of the upstream form.
pub open spec fn part_becomes(
    files: Files,
    part: JsonTree,
    assistant: bool,
    made: Seq<JsonTree>,
) -> bool {
    let kind = part.text_field("type"@);
    let file_id = part.text_field("file_id"@);
    if kind == Some("text"@) || kind == Some("input_text"@) || kind == Some("output_text"@) {
        made.len() == 1 && is_text(
            made[0],
            kind_of_text(assistant),
            or_nothing(part.text_field("text"@)),
        )
    } else if kind == Some("refusal"@) && assistant {
        &&& made.len() == 1
        &&& made[0].text_field("type"@) == Some("refusal"@)
        &&& made[0].text_field("refusal"@) == Some(or_nothing(part.text_field("refusal"@)))
        &&& forall|key: Seq<char>|
            key != "type"@ && key != "refusal"@ ==> #[trigger] made[0].field(key) is None
    } else if kind == Some("image_url"@) {
        if image_address(part).len() > 0 {
            &&& made.len() == 1
            &&& made[0].text_field("type"@) == Some("input_image"@)
            &&& made[0].text_field("image_url"@) == Some(image_address(part))
            &&& made[0].text_field("detail"@) == image_detail(part)
            &&& forall|key: Seq<char>|
                key != "type"@ && key != "image_url"@ && key != "detail"@
                    ==> #[trigger] made[0].field(key) is None
        } else {
            made.len() == 0
        }
    } else if kind == Some("input_image"@) {
        &&& made.len() == 1
        &&& if file_id is Some {
            is_at_hand(files, file_id->0) && is_image_with_file(
                made[0],
                part,
                files[file_id->0]->0,
            )
        } else {
            made[0] == part
        }
    } else if kind == Some("file"@) {
        if of_file(part, "file_data"@) is Some {
            made.len() == 1 && is_chat_file(made[0], part, "file_data"@)
        } else if of_file(part, "file_url"@) is Some {
            made.len() == 1 && is_chat_file(made[0], part, "file_url"@)
        } else if of_file(part, "file_id"@) is Some {
            &&& is_at_hand(files, of_file(part, "file_id"@)->0)
            &&& made.len() == 1
            &&& carries_file(made[0], files[of_file(part, "file_id"@)->0]->0)
        } else {
            made.len() == 0
        }
    } else if kind == Some("input_file"@) {
        &&& made.len() == 1
        &&& if file_id is Some {
            is_at_hand(files, file_id->0) && carries_file(made[0], files[file_id->0]->0)
        } else {
            made[0] == part
        }
    } else {
        made.len() == 0
    }
}

/// The id of a stored file that a part needs, where it needs one.
pub open spec fn needed_id(part: JsonTree) -> Option<Seq<char>> {
    let kind = part.text_field("type"@);
    if kind == Some("input_image"@) || kind == Some("input_file"@) {
        part.text_field("file_id"@)
    } else if kind == Some("file"@) && of_file(part, "file_data"@) is None && of_file(
        part,
        "file_url"@,
    ) is None {
        of_file(part, "file_id"@)
    } else {
        None
    }
}

/// A part of a message is kept in the form that the upstream takes, with a stored file in place
/// of its id. It is held up by nothing but a file that it needs and that is not at hand.
pub proof fn law_part_is_kept(files: Files, part: JsonTree, assistant: bool)
    ensures
        ({
            let made = content_part(files, part, assistant);
            let id = needed_id(part);
            &&& made is Ok ==> part_becomes(files, part, assistant, made->Ok_0)
            &&& made is Ok <==> (id is Some ==> is_at_hand(files, id->0))
            &&& id is Some && !files.dom().contains(id->0) ==> made == Err::<
                Seq<JsonTree>,
                FileGap,
            >(FileGap::Needed(id->0))
            &&& id is Some && files.dom().contains(id->0) && files[id->0] is None ==> made == Err::<
                Seq<JsonTree>,
                FileGap,
            >(FileGap::Unavailable)
        }),
{
    lemma_part_words();
}

/// Whether the content of a message became these parts.
pub open spec fn content_becomes(
    files: Files,
    content: Option<JsonTree>,
    assistant: bool,
    made: Seq<JsonTree>,
) -> bool {
    match content {
        Some(JsonTree::Text(text)) => made.len() == 1 && is_text(
            made[0],
            kind_of_text(assistant),
            text,
        ),
        Some(JsonTree::List(parts)) => {
            ||| list_becomes(files, parts, assistant, made)
            ||| list_becomes(files, parts, assistant, Seq::empty()) && made.len() == 1 && is_text(
                made[0],
                kind_of_text(assistant),
                ""@,
            )
        },
        _ => made.len() == 1 && is_text(made[0], kind_of_text(assistant), ""@),
    }
}

/// Whether the parts of a message became these parts, one by one and in order.
pub open spec fn list_becomes(
    files: Files,
    parts: Seq<JsonTree>,
    assistant: bool,
    made: Seq<JsonTree>,
) -> bool {
    exists|groups: Seq<Seq<JsonTree>>| #[trigger]
        all_of(groups) == made && groups.len() == parts.len() && forall|i: int|
            0 <= i < parts.len() ==> part_becomes(files, parts[i], assistant, #[trigger] groups[i])
}

/// The content of a message is kept, each of its parts in turn, and never becomes empty.
pub proof fn law_content_is_kept(files: Files, content: Option<JsonTree>, assistant: bool)
    requires
        content_parts(files, content, assistant) is Ok,
    ensures
        content_becomes(
            files,
            content,
            assistant,
            content_parts(files, content, assistant)->Ok_0,
        ),
        content_parts(files, content, assistant)->Ok_0.len() > 0,
{
    lemma_part_words();
    if let Some(JsonTree::List(parts)) = content {
        let give = each_content_part(files, assistant);
        let groups = lemma_groups(parts, give);
        assert forall|i: int| 0 <= i < parts.len() implies part_becomes(
            files,
            parts[i],
            assistant,
            #[trigger] groups[i],
        ) by {
            assert(give(parts[i]) == content_part(files, parts[i], assistant));
            law_part_is_kept(files, parts[i], assistant);
        }
        let out = try_flat(parts, give)->Ok_0;
        assert(all_of(groups) == out);
        assert(list_becomes(files, parts, assistant, out));
        if out.len() == 0 {
            assert(out =~= Seq::empty());
        }
    }
}

/// Whether no part of a content needs a stored file.
pub open spec fn needs_no_file(content: Option<JsonTree>) -> bool {
    match content {
        Some(JsonTree::List(parts)) => forall|i: int|
            0 <= i < parts.len() ==> needed_id(#[trigger] parts[i]) is None,
        _ => true,
    }
}

/// Content that needs no stored file is never held up.
pub proof fn law_plain_content_is_taken(files: Files, content: Option<JsonTree>, assistant: bool)
    requires
        needs_no_file(content),
    ensures
        content_parts(files, content, assistant) is Ok,
{
    if let Some(JsonTree::List(parts)) = content {
        let give = each_content_part(files, assistant);
        assert forall|i: int| 0 <= i < parts.len() implies give(#[trigger] parts[i]) is Ok by {
            law_part_is_kept(files, parts[i], assistant);
        }
        lemma_all_succeed(parts, give);
    }
}

/// The tool calls of a chat message.
pub open spec fn calls_of(message: JsonTree) -> Seq<JsonTree> {
    match message.list_field("tool_calls"@) {
        Some(calls) => calls,
        None => Seq::empty(),
    }
}

/// What a tool call of a chat message says of its function.
pub open spec fn of_function(call: JsonTree, key: Seq<char>) -> Option<JsonTree> {
    match call.field("function"@) {
        Some(function) => function.field(key),
        None => None,
    }
}

/// Whether an input item is the tool call of a chat message: with its id, its name and its
/// arguments.
pub open spec fn is_call_item(item: JsonTree, call: JsonTree) -> bool {
    let name = of_function(call, "name"@);
    &&& item.text_field("type"@) == Some("function_call"@)
    &&& item.text_field("call_id"@) == Some(or_nothing(call.text_field("id"@)))
    &&& item.text_field("name"@) == Some(
        if name is Some {
            or_nothing(name->0.as_text())
        } else {
            ""@
        },
    )
    &&& item.field("arguments"@) == (if of_function(call, "arguments"@) is Some {
        of_function(call, "arguments"@)
    } else {
        Some(JsonTree::Text("{}"@))
    })
    &&& forall|key: Seq<char>|
        key != "type"@ && key != "call_id"@ && key != "name"@ && key != "arguments"@
            ==> #[trigger] item.field(key) is None
}

/// Whether an input item is the result of a tool call: for its id, and with what came of it.
pub open spec fn is_result_item(item: JsonTree, message: JsonTree) -> bool {
    &&& item.text_field("type"@) == Some("function_call_output"@)
    &&& item.text_field("call_id"@) == Some(or_nothing(message.text_field("tool_call_id"@)))
    &&& item.field("output"@) == (if message.field("content"@) is Some {
        message.field("content"@)
    } else {
        Some(JsonTree::Text(""@))
    })
    &&& forall|key: Seq<char>|
        key != "type"@ && key != "call_id"@ && key != "output"@ ==> #[trigger] item.field(
            key,
        ) is None
}

/// Whether an input item is what a role said in a chat message.
pub open spec fn is_said(
    files: Files,
    item: JsonTree,
    role: Seq<char>,
    content: Option<JsonTree>,
) -> bool {
    &&& item.text_field("role"@) == Some(role)
    &&& item.list_field("content"@) is Some
    &&& content_becomes(files, content, role == "assistant"@, item.list_field("content"@)->0)
    &&& forall|key: Seq<char>| key != "role"@ && key != "content"@ ==> item.field(key) is None
}

/// Whether a chat message says something.
pub open spec fn says_something(message: JsonTree) -> bool {
    match message.field("content"@) {
        Some(JsonTree::Text(text)) => text.len() > 0,
        Some(JsonTree::List(parts)) => parts.len() > 0,
        _ => false,
    }
}

/// Whether a chat message became these input items: what the user said, what the assistant said
/// with all tools that it called behind, or the result of a tool.
pub open spec fn message_becomes(
    files: Files,
    message: JsonTree,
    items: Seq<JsonTree>,
) -> bool {
    let role = message.text_field("role"@);
    let content = message.field("content"@);
    let calls = calls_of(message);
    if role == Some("user"@) {
        items.len() == 1 && is_said(files, items[0], "user"@, content)
    } else if role == Some("assistant"@) {
        let spoken: int = if says_something(message) || message.list_field("tool_calls"@) is None {
            1
        } else {
            0
        };
        &&& items.len() == spoken + calls.len()
        &&& spoken == 1 ==> is_said(
            files,
            items[0],
            "assistant"@,
            if says_something(message) {
                content
            } else {
                None
            },
        )
        &&& forall|k: int|
            0 <= k < calls.len() ==> is_call_item(
                items[spoken + k],
                #[trigger] calls_of(message)[k],
            )
    } else if role == Some("tool"@) {
        items.len() == 1 && is_result_item(items[0], message)
    } else {
        items.len() == 0
    }
}

/// A chat message is kept whole: what it says, and behind that each tool call that it makes.
pub proof fn law_message_is_kept(files: Files, message: JsonTree)
    requires
        message_items(files, message) is Ok,
    ensures
        message_becomes(files, message, message_items(files, message)->Ok_0),
{
    lemma_part_words();
    let role = message.text_field("role"@);
    let content = message.field("content"@);
    let items = message_items(files, message)->Ok_0;
    if role == Some("user"@) {
        law_content_is_kept(files, content, false);
    } else if role == Some("assistant"@) {
        let said = assistant_items(files, message)->Ok_0;
        let calls = calls_of(message);
        if says_something(message) {
            law_content_is_kept(files, content, true);
        }
        assert(tool_call_items(message).len() == calls.len());
        assert forall|k: int| 0 <= k < calls.len() implies is_call_item(
            items[said.len() + k],
            #[trigger] calls_of(message)[k],
        ) by {
            assert(items[said.len() + k] == tool_call_items(message)[k]);
        }
    }
}

/// Whether messages need no stored file.
pub open spec fn messages_need_no_file(messages: Seq<JsonTree>) -> bool {
    forall|i: int|
        0 <= i < messages.len() ==> needs_no_file((#[trigger] messages[i]).field("content"@))
}

/// Chat messages that need no stored file are never held up.
pub proof fn law_plain_messages_are_taken(files: Files, messages: Seq<JsonTree>)
    requires
        messages_need_no_file(messages),
    ensures
        try_flat(messages, each_message_items(files)) is Ok,
{
    let give = each_message_items(files);
    assert forall|i: int| 0 <= i < messages.len() implies give(#[trigger] messages[i]) is Ok by {
        law_plain_content_is_taken(files, messages[i].field("content"@), true);
        law_plain_content_is_taken(files, messages[i].field("content"@), false);
    }
    lemma_all_succeed(messages, give);
}

/// What a value says where a text is wanted.
pub open spec fn in_words(value: JsonTree) -> Seq<char> {
    match value {
        JsonTree::Text(text) => text,
        other => printed(other),
    }
}

/// Whether a part of an input item is one with a stored file in place of its id.
pub open spec fn file_is_put_in(files: Files, part: JsonTree, made: JsonTree) -> bool {
    let kind = part.text_field("type"@);
    let id = part.text_field("file_id"@);
    if id is Some && kind == Some("input_file"@) {
        let file = files[id->0]->0;
        &&& is_at_hand(files, id->0)
        &&& made.text_field("file_data"@) == Some(file.data_url)
        &&& made.field("file_id"@) is None
        &&& made.field("filename"@) == (if part.field("filename"@) is Some {
            part.field("filename"@)
        } else {
            Some(JsonTree::Text(file.filename))
        })
        &&& forall|key: Seq<char>|
            key != "file_data"@ && key != "file_id"@ && key != "filename"@ ==> made.field(key)
                == part.field(key)
    } else if id is Some && kind == Some("input_image"@) {
        is_at_hand(files, id->0) && is_image_with_file(made, part, files[id->0]->0)
    } else {
        made == part
    }
}

/// Whether the content of an input item with a role became these parts.
pub open spec fn role_content_becomes(
    files: Files,
    content: JsonTree,
    assistant: bool,
    made: Seq<JsonTree>,
) -> bool {
    match content {
        JsonTree::List(_) => content_becomes(files, Some(content), assistant, made),
        JsonTree::Null => made.len() == 1 && is_text(made[0], kind_of_text(assistant), ""@),
        other => made.len() == 1 && is_text(made[0], kind_of_text(assistant), in_words(other)),
    }
}

/// Whether an item of the input became this one. All that it says but its content is kept.
pub open spec fn item_becomes(files: Files, item: JsonTree, made: JsonTree) -> bool {
    let role = item.text_field("role"@);
    let content = item.field("content"@);
    let parts = made.list_field("content"@);
    if !(item is Object) {
        &&& made.text_field("role"@) == Some("user"@)
        &&& parts is Some && parts->0.len() == 1
        &&& is_text(parts->0[0], "input_text"@, in_words(item))
        &&& forall|key: Seq<char>| key != "role"@ && key != "content"@ ==> made.field(key) is None
    } else {
        &&& made is Object
        &&& forall|key: Seq<char>| key != "content"@ ==> made.field(key) == item.field(key)
        &&& if role is Some && content is Some {
            parts is Some && role_content_becomes(
                files,
                content->0,
                role == Some("assistant"@),
                parts->0,
            )
        } else if role == Some("user"@) || role == Some("assistant"@) {
            &&& parts is Some && parts->0.len() == 1
            &&& is_text(parts->0[0], kind_of_text(role == Some("assistant"@)), ""@)
        } else if content is Some && content->0 is List {
            let own = content->0->List_0;
            &&& parts is Some && parts->0.len() == own.len()
            &&& forall|k: int|
                0 <= k < own.len() ==> file_is_put_in(files, own[k], #[trigger] parts->0[k])
        } else {
            made.field("content"@) == content
        }
    }
}

proof fn lemma_resolved_one(files: Files, part: JsonTree)
    requires
        resolved_part(files, part) is Ok,
    ensures
        resolved_part(files, part)->Ok_0.len() == 1,
        file_is_put_in(files, part, resolved_part(files, part)->Ok_0[0]),
{
    lemma_part_words();
}

pub(crate) proof fn lemma_all_of_ones<A>(groups: Seq<Seq<A>>)
    requires
        forall|i: int| 0 <= i < groups.len() ==> (#[trigger] groups[i]).len() == 1,
    ensures
        all_of(groups).len() == groups.len(),
        forall|i: int| 0 <= i < groups.len() ==> #[trigger] all_of(groups)[i] == groups[i][0],
    decreases groups.len(),
{
    if groups.len() > 0 {
        let fewer = groups.drop_last();
        assert forall|i: int| 0 <= i < fewer.len() implies (#[trigger] fewer[i]).len() == 1 by {
            assert(fewer[i] == groups[i]);
        }
        lemma_all_of_ones(fewer);
        assert(groups[groups.len() - 1].len() == 1);
        assert forall|i: int| 0 <= i < groups.len() implies #[trigger] all_of(groups)[i]
            == groups[i][0] by {
            if i < fewer.len() {
                assert(all_of(groups)[i] == all_of(fewer)[i]);
                assert(fewer[i] == groups[i]);
            }
        }
    }
}

proof fn lemma_resolved_list(files: Files, parts: Seq<JsonTree>)
    requires
        try_flat(parts, each_resolved_part(files)) is Ok,
    ensures
        ({
            let made = try_flat(parts, each_resolved_part(files))->Ok_0;
            &&& made.len() == parts.len()
            &&& forall|k: int|
                0 <= k < parts.len() ==> file_is_put_in(files, parts[k], #[trigger] made[k])
        }),
{
    let give = each_resolved_part(files);
    let groups = lemma_groups(parts, give);
    assert forall|i: int| 0 <= i < groups.len() implies (#[trigger] groups[i]).len() == 1 by {
        assert(give(parts[i]) == Ok::<Seq<JsonTree>, FileGap>(groups[i]));
        assert(give(parts[i]) == resolved_part(files, parts[i]));
        lemma_resolved_one(files, parts[i]);
    }
    lemma_all_of_ones(groups);
    let made = try_flat(parts, give)->Ok_0;
    assert forall|k: int| 0 <= k < parts.len() implies file_is_put_in(
        files,
        parts[k],
        #[trigger] made[k],
    ) by {
        assert(made[k] == groups[k][0]);
        assert(give(parts[k]) == resolved_part(files, parts[k]));
        lemma_resolved_one(files, parts[k]);
    }
}

/// An item of the input is kept: it becomes one item, with all that it says and with its content
/// in the form that the upstream takes.
pub proof fn law_input_item_is_kept(files: Files, item: JsonTree)
    requires
        input_item(files, item) is Ok,
    ensures
        input_item(files, item)->Ok_0.len() == 1,
        item_becomes(files, item, input_item(files, item)->Ok_0[0]),
{
    lemma_part_words();
    lemma_item_words();
    let start = item_fields(item);
    let fields = with_role_content(files, start)->Ok_0;
    let role = JsonTree::Object(start).text_field("role"@);
    let content = field_of(start, "content"@);
    match role {
        Some(role) => {
            let assistant = role == "assistant"@;
            if let Some(content) = content {
                let parts = role_content(files, role, content)->Ok_0;
                lemma_role_content_stays(files, files, role, content);
                lemma_parts_resolved(files, parts, assistant);
                assert(fields.insert("content"@, JsonTree::List(parts)) =~= fields);
                if content is List {
                    law_content_is_kept(files, Some(content), assistant);
                }
                if !(item is Object) {
                    let given = seq![
                        text_part("input_text"@, in_words(item)),
                    ];
                    assert(content == JsonTree::List(given));
                    lemma_lone_text(files, in_words(item));
                }
            } else if role == "user"@ || assistant {
                let parts = seq![
                    text_part(text_type(assistant), ""@),
                ];
                lemma_text_part_stays(files, assistant, ""@);
                lemma_parts_resolved(files, parts, assistant);
                assert(fields.insert("content"@, JsonTree::List(parts)) =~= fields);
            }
        },
        None => {
            if let Some(JsonTree::List(parts)) = content {
                lemma_resolved_list(files, parts);
            }
        },
    }
}

/// A lone text of the user stays as it is.
pub(crate) proof fn lemma_lone_text(files: Files, text: Seq<char>)
    ensures
        ({
            let parts = seq![text_part("input_text"@, text)];
            role_content(files, "user"@, JsonTree::List(parts)) == Ok::<Seq<JsonTree>, FileGap>(
                parts,
            )
        }),
{
    lemma_part_words();
    let parts = seq![text_part("input_text"@, text)];
    lemma_text_part_stays(files, false, text);
    assert(part_stays(files, false)(parts[0]));
    lemma_parts_resolved(files, parts, false);
}

/// Whether an item of the input needs no stored file.
pub open spec fn item_needs_no_file(item: JsonTree) -> bool {
    match item.list_field("content"@) {
        Some(parts) => forall|i: int|
            0 <= i < parts.len() ==> needed_id(#[trigger] parts[i]) is None,
        None => true,
    }
}

/// Items of the input that need no stored file are never held up.
pub proof fn law_plain_items_are_taken(files: Files, items: Seq<JsonTree>)
    requires
        forall|i: int| 0 <= i < items.len() ==> item_needs_no_file(#[trigger] items[i]),
    ensures
        try_flat(items, each_input_item(files)) is Ok,
{
    let give = each_input_item(files);
    assert forall|i: int| 0 <= i < items.len() implies give(#[trigger] items[i]) is Ok by {
        lemma_plain_item(files, items[i]);
    }
    lemma_all_succeed(items, give);
}

proof fn lemma_plain_item(files: Files, item: JsonTree)
    requires
        item_needs_no_file(item),
    ensures
        input_item(files, item) is Ok,
{
    lemma_part_words();
    lemma_item_words();
    let start = item_fields(item);
    let role = JsonTree::Object(start).text_field("role"@);
    let content = field_of(start, "content"@);
    match role {
        Some(role) => {
            let assistant = role == "assistant"@;
            if let Some(content) = content {
                if !(item is Object) {
                    lemma_lone_text(files, in_words(item));
                } else {
                    law_plain_content_is_taken(files, Some(content), assistant);
                }
                let parts = role_content(files, role, content)->Ok_0;
                lemma_role_content_stays(files, files, role, content);
                lemma_parts_resolved(files, parts, assistant);
            } else {
                let parts = seq![
                    text_part(text_type(assistant), ""@),
                ];
                lemma_text_part_stays(files, assistant, ""@);
                lemma_parts_resolved(files, parts, assistant);
            }
        },
        None => {
            if let Some(JsonTree::List(parts)) = content {
                let give = each_resolved_part(files);
                assert forall|i: int| 0 <= i < parts.len() implies give(
                    #[trigger] parts[i],
                ) is Ok by {
                    assert(needed_id(parts[i]) is None);
                }
                lemma_all_succeed(parts, give);
            }
        },
    }
}

} // verus!
