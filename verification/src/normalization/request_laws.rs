use vstd::prelude::*;

use crate::config::model_names;
use crate::errors::plain_error;
use crate::files::{FileGap, Files};
use crate::json::{field_of, list_of, text_of, Fields, JsonTree};
use crate::normalization::{
    chat_request, completed, file_refusal, prepared, responses_request, with_input, Refusal,
};
use crate::normalization::content::{
    content_part, each_content_part, each_input_item, each_message_instructions, each_message_items,
    each_plain_text, input_item, instruction_text, message_instructions, message_items, plain_text,
    role_content, text_part, user_message, worded,
};
use crate::normalization::content_laws::{
    all_of, calls_of, in_words, is_call_item, is_text, item_becomes, item_needs_no_file,
    law_input_item_is_kept, law_message_is_kept, law_part_is_kept, law_plain_items_are_taken,
    law_plain_messages_are_taken, lemma_all_of_ones, lemma_groups, lemma_lone_text, message_becomes,
    messages_need_no_file, or_nothing,
};
use crate::normalization::field_laws::lemma_filter_agrees;
use crate::normalization::fields::{
    aliased, converses, each_item_instructions, has_supported_model, item_instructions, promoted,
    with_default_instructions, with_instructions,
};
use crate::normalization::laws::{
    lemma_completed_input, lemma_completed_instructions, lemma_field_names,
};
use crate::normalization::settling::{
    lemma_parts_resolved, lemma_role_content_stays, lemma_text_part_stays,
};
use crate::seqs::{flat, lemma_filter_same, lemma_flat_nothing, lemma_try_flat_same, try_flat};
use crate::streaming::message_laws::lemma_flat_add;
use crate::text::{is_space, joined, lemma_blank};

verus! {

/// What tells roles and the names in a message apart.
proof fn lemma_role_words()
    ensures
        ""@.len() == 0,
        "role"@.len() == 4 && "role"@[0] == 'r',
        "content"@.len() == 7 && "content"@[0] == 'c' && "content"@[1] == 'o',
        "user"@.len() == 4 && "user"@[0] == 'u',
        "assistant"@.len() == 9 && "assistant"@[0] == 'a' && "assistant"@[1] == 's',
        "tool"@.len() == 4 && "tool"@[0] == 't' && "tool"@[1] == 'o',
        "system"@.len() == 6 && "system"@[0] == 's',
        "developer"@.len() == 9 && "developer"@[0] == 'd',
        "type"@.len() == 4 && "type"@[0] == 't' && "type"@[1] == 'y',
        "text"@.len() == 4 && "text"@[0] == 't' && "text"@[1] == 'e',
        "input_text"@.len() == 10 && "input_text"@[6] == 't',
        "output_text"@.len() == 11 && "output_text"@[0] == 'o',
        "refusal"@.len() == 7 && "refusal"@[0] == 'r',
        "image_url"@.len() == 9 && "image_url"@[0] == 'i',
        "input_image"@.len() == 11 && "input_image"@[0] == 'i',
        "file"@.len() == 4 && "file"@[0] == 'f',
        "input_file"@.len() == 10 && "input_file"@[6] == 'f',
        "file_id"@.len() == 7 && "file_id"@[0] == 'f',
        "file_data"@.len() == 9 && "file_data"@[0] == 'f',
        "file_url"@.len() == 8 && "file_url"@[4] == '_',
        "filename"@.len() == 8 && "filename"@[4] == 'n',
        "detail"@.len() == 6 && "detail"@[0] == 'd',
        "name"@.len() == 4 && "name"@[0] == 'n',
        "arguments"@.len() == 9 && "arguments"@[0] == 'a' && "arguments"@[1] == 'r',
        "call_id"@.len() == 7 && "call_id"@[0] == 'c' && "call_id"@[1] == 'a',
        "output"@.len() == 6 && "output"@[0] == 'o',
{
    reveal_strlit("");
    reveal_strlit("role");
    reveal_strlit("content");
    reveal_strlit("user");
    reveal_strlit("assistant");
    reveal_strlit("tool");
    reveal_strlit("system");
    reveal_strlit("developer");
    reveal_strlit("type");
    reveal_strlit("text");
    reveal_strlit("input_text");
    reveal_strlit("output_text");
    reveal_strlit("refusal");
    reveal_strlit("image_url");
    reveal_strlit("input_image");
    reveal_strlit("file");
    reveal_strlit("input_file");
    reveal_strlit("file_id");
    reveal_strlit("file_data");
    reveal_strlit("file_url");
    reveal_strlit("filename");
    reveal_strlit("detail");
    reveal_strlit("name");
    reveal_strlit("arguments");
    reveal_strlit("call_id");
    reveal_strlit("output");
}

proof fn lemma_prepared_input(aliases: Map<Seq<char>, Seq<char>>, start: Fields)
    ensures
        field_of(prepared(aliases, start), "input"@) == field_of(start, "input"@),
        field_of(prepared(aliases, start), "messages"@) == field_of(start, "messages"@),
        field_of(prepared(aliases, start), "instructions"@) == field_of(start, "instructions"@),
{
    reveal(prepared);
    lemma_field_names();
}

/// Whether the messages of a payload are what goes upstream: on the chat route always, on the
/// responses route where there is no input.
pub open spec fn speaks_by_messages(
    aliases: Map<Seq<char>, Seq<char>>,
    files: Files,
    default: Option<Seq<char>>,
    payload: JsonTree,
    request: Fields,
) -> bool {
    &&& payload.list_field("messages"@) is Some
    &&& chat_request(aliases, files, default, payload) == Ok::<Fields, Refusal>(request)
        || payload.field("input"@) is None && responses_request(aliases, files, default, payload)
        == Ok::<Fields, Refusal>(request)
}

/// Whether the input of a payload is what goes upstream: on the responses route always, on the
/// chat route where there are no messages.
pub open spec fn speaks_by_input(
    aliases: Map<Seq<char>, Seq<char>>,
    files: Files,
    default: Option<Seq<char>>,
    payload: JsonTree,
    request: Fields,
) -> bool {
    &&& payload.field("input"@) is Some
    &&& responses_request(aliases, files, default, payload) == Ok::<Fields, Refusal>(request)
        || payload.list_field("messages"@) is None && chat_request(
        aliases,
        files,
        default,
        payload,
    ) == Ok::<Fields, Refusal>(request)
}

/// An item of a group is among the items of all groups.
proof fn lemma_item_of_group<A>(groups: Seq<Seq<A>>, i: int, k: int) -> (j: int)
    requires
        0 <= i < groups.len(),
        0 <= k < groups[i].len(),
    ensures
        0 <= j < all_of(groups).len(),
        all_of(groups)[j] == groups[i][k],
    decreases groups.len(),
{
    let fewer = groups.drop_last();
    if i < fewer.len() {
        assert(fewer[i] == groups[i]);
        let j = lemma_item_of_group(fewer, i, k);
        assert(all_of(groups)[j] == all_of(fewer)[j]);
        j
    } else {
        all_of(fewer).len() + k
    }
}

/// What holds of the items of each group holds of the items of all groups.
proof fn lemma_groups_hold<A>(groups: Seq<Seq<A>>, holds: spec_fn(A) -> bool)
    requires
        forall|i: int, k: int|
            0 <= i < groups.len() && 0 <= k < groups[i].len() ==> holds(#[trigger] groups[i][k]),
    ensures
        forall|j: int| 0 <= j < all_of(groups).len() ==> holds(#[trigger] all_of(groups)[j]),
    decreases groups.len(),
{
    if groups.len() > 0 {
        let fewer = groups.drop_last();
        assert forall|i: int, k: int|
            0 <= i < fewer.len() && 0 <= k < fewer[i].len() implies holds(
            #[trigger] fewer[i][k],
        ) by {
            assert(fewer[i] == groups[i]);
            assert(holds(groups[i][k]));
        }
        lemma_groups_hold(fewer, holds);
        assert forall|j: int| 0 <= j < all_of(groups).len() implies holds(
            #[trigger] all_of(groups)[j],
        ) by {
            if j < all_of(fewer).len() {
                assert(all_of(groups)[j] == all_of(fewer)[j]);
            } else {
                assert(holds(groups[groups.len() - 1][j - all_of(fewer).len()]));
            }
        }
    }
}

/// No input item that a chat message becomes gives instructions.
proof fn lemma_messages_converse(files: Files, message: JsonTree, items: Seq<JsonTree>, k: int)
    requires
        message_becomes(files, message, items),
        0 <= k < items.len(),
    ensures
        converses()(items[k]),
{
    lemma_role_words();
    if message.text_field("role"@) == Some("assistant"@) {
        let calls = calls_of(message);
        let spoken = items.len() - calls.len();
        if k >= spoken {
            assert(is_call_item(items[spoken + (k - spoken)], calls_of(message)[k - spoken]));
            assert(items[k].field("role"@) is None);
        }
    } else if message.text_field("role"@) == Some("tool"@) {
        assert(items[k].field("role"@) is None);
    }
}

proof fn lemma_messages(
    aliases: Map<Seq<char>, Seq<char>>,
    files: Files,
    default: Option<Seq<char>>,
    payload: JsonTree,
    request: Fields,
) -> (out: (Seq<Seq<JsonTree>>, Fields))
    requires
        speaks_by_messages(aliases, files, default, payload, request),
    ensures
        ({
            let (groups, fields) = out;
            let messages = payload.list_field("messages"@)->0;
            let told = joined(flat(messages, each_message_instructions()), "\n\n"@);
            &&& groups.len() == messages.len()
            &&& forall|i: int|
                0 <= i < messages.len() ==> message_becomes(
                    files,
                    messages[i],
                    #[trigger] groups[i],
                )
            &&& request == completed(fields, default)
            &&& list_of(fields, "input"@) == Some(all_of(groups))
            &&& forall|j: int|
                0 <= j < all_of(groups).len() ==> converses()(#[trigger] all_of(groups)[j])
            &&& text_of(fields, "instructions"@) == text_of(
                with_instructions(payload->Object_0, told),
                "instructions"@,
            )
        }),
{
    let start = prepared(aliases, payload->Object_0);
    lemma_prepared_input(aliases, payload->Object_0);
    lemma_field_names();
    let messages = payload.list_field("messages"@)->0;
    assert(list_of(start, "messages"@) == Some(messages));
    let give = each_message_items(files);
    let groups = lemma_groups(messages, give);
    assert forall|i: int| 0 <= i < messages.len() implies message_becomes(
        files,
        messages[i],
        #[trigger] groups[i],
    ) by {
        assert(give(messages[i]) == Ok::<Seq<JsonTree>, FileGap>(groups[i]));
        assert(give(messages[i]) == message_items(files, messages[i]));
        law_message_is_kept(files, messages[i]);
    }
    assert forall|i: int, k: int|
        0 <= i < groups.len() && 0 <= k < groups[i].len() implies converses()(
        #[trigger] groups[i][k],
    ) by {
        lemma_messages_converse(files, messages[i], groups[i], k);
    }
    lemma_groups_hold(groups, converses());
    let told = joined(flat(messages, each_message_instructions()), "\n\n"@);
    let listed = start.insert("input"@, JsonTree::List(all_of(groups)));
    let fields = with_instructions(listed, told).remove("messages"@);
    assert(text_of(listed, "instructions"@) == text_of(payload->Object_0, "instructions"@));
    (groups, fields)
}

/// Chat messages go upstream one by one and in order, each with all that it says, calls or brings
/// back.
pub proof fn law_messages_go_upstream(
    aliases: Map<Seq<char>, Seq<char>>,
    files: Files,
    default: Option<Seq<char>>,
    payload: JsonTree,
    request: Fields,
) -> (groups: Seq<Seq<JsonTree>>)
    requires
        speaks_by_messages(aliases, files, default, payload, request),
    ensures
        groups.len() == payload.list_field("messages"@)->0.len(),
        forall|i: int|
            0 <= i < groups.len() ==> message_becomes(
                files,
                payload.list_field("messages"@)->0[i],
                #[trigger] groups[i],
            ),
        list_of(request, "input"@) == Some(all_of(groups)),
{
    let (groups, fields) = lemma_messages(aliases, files, default, payload, request);
    lemma_completed_input(fields, default);
    lemma_filter_same(all_of(groups), converses());
    groups
}

/// Every tool call of a chat message goes upstream with its id, its name and its arguments,
/// whatever else the message says.
pub proof fn law_every_call_goes_upstream(
    aliases: Map<Seq<char>, Seq<char>>,
    files: Files,
    default: Option<Seq<char>>,
    payload: JsonTree,
    request: Fields,
    i: int,
    k: int,
) -> (j: int)
    requires
        speaks_by_messages(aliases, files, default, payload, request),
        0 <= i < payload.list_field("messages"@)->0.len(),
        payload.list_field("messages"@)->0[i].text_field("role"@) == Some("assistant"@),
        0 <= k < calls_of(payload.list_field("messages"@)->0[i]).len(),
    ensures
        list_of(request, "input"@) is Some,
        0 <= j < list_of(request, "input"@)->0.len(),
        is_call_item(
            list_of(request, "input"@)->0[j],
            calls_of(payload.list_field("messages"@)->0[i])[k],
        ),
{
    lemma_role_words();
    let groups = law_messages_go_upstream(aliases, files, default, payload, request);
    let message = payload.list_field("messages"@)->0[i];
    let items = groups[i];
    let spoken = items.len() - calls_of(message).len();
    assert(message_becomes(files, message, items));
    assert(is_call_item(items[spoken + k], calls_of(message)[k]));
    lemma_item_of_group(groups, i, spoken + k)
}

/// Whether an item takes part in the conversation.
pub open spec fn takes_part(item: JsonTree) -> bool {
    item.text_field("role"@) != Some("system"@) && item.text_field("role"@) != Some("developer"@)
}

/// `takes_part` as a function of the item.
pub open spec fn those_that_take_part() -> spec_fn(JsonTree) -> bool {
    |item: JsonTree| takes_part(item)
}

proof fn lemma_input(
    aliases: Map<Seq<char>, Seq<char>>,
    files: Files,
    default: Option<Seq<char>>,
    payload: JsonTree,
    request: Fields,
) -> (out: (Seq<JsonTree>, Fields))
    requires
        speaks_by_input(aliases, files, default, payload, request),
        payload.list_field("input"@) is Some,
    ensures
        ({
            let (made, fields) = out;
            let items = payload.list_field("input"@)->0;
            &&& made.len() == items.len()
            &&& forall|i: int|
                0 <= i < items.len() ==> item_becomes(files, items[i], #[trigger] made[i])
            &&& forall|i: int|
                0 <= i < items.len() ==> input_item(files, items[i]) == Ok::<
                    Seq<JsonTree>,
                    FileGap,
                >(seq![#[trigger] made[i]])
            &&& request == completed(fields, default)
            &&& list_of(fields, "input"@) == Some(made)
            &&& text_of(fields, "instructions"@) == text_of(payload->Object_0, "instructions"@)
        }),
{
    let start = prepared(aliases, payload->Object_0);
    lemma_prepared_input(aliases, payload->Object_0);
    lemma_field_names();
    let items = payload.list_field("input"@)->0;
    assert(list_of(start, "input"@) == Some(items));
    assert(start.insert("input"@, JsonTree::List(items)) =~= start);
    let give = each_input_item(files);
    let groups = lemma_groups(items, give);
    assert forall|i: int| 0 <= i < groups.len() implies (#[trigger] groups[i]).len() == 1 by {
        assert(give(items[i]) == Ok::<Seq<JsonTree>, FileGap>(groups[i]));
        assert(give(items[i]) == input_item(files, items[i]));
        law_input_item_is_kept(files, items[i]);
    }
    lemma_all_of_ones(groups);
    let made = all_of(groups);
    assert forall|i: int| 0 <= i < items.len() implies item_becomes(
        files,
        items[i],
        #[trigger] made[i],
    ) by {
        assert(give(items[i]) == Ok::<Seq<JsonTree>, FileGap>(groups[i]));
        assert(give(items[i]) == input_item(files, items[i]));
        law_input_item_is_kept(files, items[i]);
        assert(made[i] == groups[i][0]);
    }
    assert forall|i: int| 0 <= i < items.len() implies input_item(files, items[i]) == Ok::<
        Seq<JsonTree>,
        FileGap,
    >(seq![#[trigger] made[i]]) by {
        assert(give(items[i]) == Ok::<Seq<JsonTree>, FileGap>(groups[i]));
        assert(give(items[i]) == input_item(files, items[i]));
        assert(made[i] == groups[i][0]);
        assert(groups[i] =~= seq![made[i]]);
    }
    let listed = start.insert("input"@, JsonTree::List(made));
    let fields = if responses_request(aliases, files, default, payload) == Ok::<Fields, Refusal>(
        request,
    ) {
        listed.remove("messages"@)
    } else {
        listed
    };
    (made, fields)
}

/// The items of an input go upstream one by one and in order, each with all that it says, but for
/// those that give instructions.
pub proof fn law_input_goes_upstream(
    aliases: Map<Seq<char>, Seq<char>>,
    files: Files,
    default: Option<Seq<char>>,
    payload: JsonTree,
    request: Fields,
) -> (made: Seq<JsonTree>)
    requires
        speaks_by_input(aliases, files, default, payload, request),
        payload.list_field("input"@) is Some,
    ensures
        made.len() == payload.list_field("input"@)->0.len(),
        forall|i: int|
            0 <= i < made.len() ==> item_becomes(
                files,
                payload.list_field("input"@)->0[i],
                #[trigger] made[i],
            ),
        list_of(request, "input"@) == Some(made.filter(those_that_take_part())),
{
    let (made, fields) = lemma_input(aliases, files, default, payload, request);
    lemma_completed_input(fields, default);
    lemma_filter_agrees(made, converses(), those_that_take_part());
    made
}

/// What a lone input becomes before the request is completed.
proof fn lemma_lone_input(
    aliases: Map<Seq<char>, Seq<char>>,
    files: Files,
    default: Option<Seq<char>>,
    payload: JsonTree,
    request: Fields,
) -> (fields: Fields)
    requires
        speaks_by_input(aliases, files, default, payload, request),
        payload.list_field("input"@) is None,
    ensures
        request == completed(fields, default),
        list_of(fields, "input"@) == Some(seq![user_message(in_words(payload.field("input"@)->0))]),
        text_of(fields, "instructions"@) == text_of(payload->Object_0, "instructions"@),
        converses()(user_message(in_words(payload.field("input"@)->0))),
{
    lemma_role_words();
    lemma_field_names();
    let start = prepared(aliases, payload->Object_0);
    lemma_prepared_input(aliases, payload->Object_0);
    let words = in_words(payload.field("input"@)->0);
    let item = user_message(words);
    let give = each_input_item(files);
    let parts = seq![text_part("input_text"@, words)];
    lemma_lone_text(files, words);
    lemma_text_part_stays(files, false, words);
    lemma_parts_resolved(files, parts, false);
    assert(item->Object_0.insert("content"@, JsonTree::List(parts)) =~= item->Object_0);
    assert(input_item(files, item) == Ok::<Seq<JsonTree>, FileGap>(seq![item]));
    lemma_try_flat_same(seq![item], give);
    let listed = start.insert("input"@, JsonTree::List(seq![item]));
    assert(listed.insert("input"@, JsonTree::List(seq![item])) =~= listed);
    let fields = if responses_request(aliases, files, default, payload) == Ok::<Fields, Refusal>(
        request,
    ) {
        listed.remove("messages"@)
    } else {
        listed
    };
    assert(request == completed(fields, default));
    assert(converses()(item));
    fields
}

/// An input that is no list goes upstream as what the user says.
pub proof fn law_lone_input_goes_upstream(
    aliases: Map<Seq<char>, Seq<char>>,
    files: Files,
    default: Option<Seq<char>>,
    payload: JsonTree,
    request: Fields,
)
    requires
        speaks_by_input(aliases, files, default, payload, request),
        payload.list_field("input"@) is None,
    ensures
        ({
            let items = list_of(request, "input"@);
            let parts = items->0[0].list_field("content"@);
            &&& items is Some && items->0.len() == 1
            &&& items->0[0].text_field("role"@) == Some("user"@)
            &&& parts is Some && parts->0.len() == 1
            &&& is_text(parts->0[0], "input_text"@, in_words(payload.field("input"@)->0))
        }),
{
    lemma_role_words();
    let fields = lemma_lone_input(aliases, files, default, payload, request);
    let item = user_message(in_words(payload.field("input"@)->0));
    lemma_completed_input(fields, default);
    lemma_filter_same(seq![item], converses());
}

/// A request without input and messages goes upstream with nothing said, on the responses route.
pub proof fn law_nothing_goes_upstream_as_nothing(
    aliases: Map<Seq<char>, Seq<char>>,
    files: Files,
    default: Option<Seq<char>>,
    payload: JsonTree,
    request: Fields,
)
    requires
        responses_request(aliases, files, default, payload) == Ok::<Fields, Refusal>(request),
        payload.field("input"@) is None,
        payload.list_field("messages"@) is None,
    ensures
        list_of(request, "input"@) == Some(Seq::<JsonTree>::empty()),
{
    lemma_field_names();
    let start = prepared(aliases, payload->Object_0);
    lemma_prepared_input(aliases, payload->Object_0);
    let fields = start.insert("input"@, JsonTree::List(Seq::empty()));
    lemma_completed_input(fields, default);
    lemma_filter_same(Seq::<JsonTree>::empty(), converses());
}

/// Whether a text has nothing in it but white space.
pub open spec fn is_blank_text(text: Seq<char>) -> bool {
    forall|i: int| 0 <= i < text.len() ==> is_space(#[trigger] text[i])
}

/// The instructions of a request: its own, with those that it gives elsewhere behind them, or else
/// the default ones, or else none.
pub open spec fn instructions_for(
    own: Option<Seq<char>>,
    told: Seq<char>,
    default: Option<Seq<char>>,
) -> Seq<char> {
    let first = or_nothing(own);
    let all = if is_blank_text(told) {
        first
    } else if is_blank_text(first) {
        told
    } else {
        first + "\n\n"@ + told
    };
    if !is_blank_text(all) {
        all
    } else if !is_blank_text(or_nothing(default)) {
        or_nothing(default)
    } else {
        ""@
    }
}

/// The texts among the parts of an instructing message.
pub open spec fn texts_among(parts: Seq<JsonTree>) -> Seq<Seq<char>>
    decreases parts.len(),
{
    if parts.len() == 0 {
        Seq::empty()
    } else {
        let before = texts_among(parts.drop_last());
        let kind = parts.last().text_field("type"@);
        if (kind == Some("text"@) || kind == Some("input_text"@)) && parts.last().text_field(
            "text"@,
        ) is Some {
            before.push(parts.last().text_field("text"@)->0)
        } else {
            before
        }
    }
}

/// The instructions that chat messages give, in order.
pub open spec fn told_by_messages(messages: Seq<JsonTree>) -> Seq<Seq<char>>
    decreases messages.len(),
{
    if messages.len() == 0 {
        Seq::empty()
    } else {
        let before = told_by_messages(messages.drop_last());
        let message = messages.last();
        if takes_part(message) {
            before
        } else {
            match message.field("content"@) {
                Some(JsonTree::Text(text)) => before.push(text),
                Some(JsonTree::List(parts)) => before + texts_among(parts),
                _ => before,
            }
        }
    }
}

proof fn lemma_texts_among(parts: Seq<JsonTree>)
    ensures
        flat(parts, each_plain_text()) == texts_among(parts),
    decreases parts.len(),
{
    if parts.len() > 0 {
        lemma_texts_among(parts.drop_last());
        assert(each_plain_text()(parts.last()) == plain_text(parts.last()));
        assert(flat(parts, each_plain_text()) =~= texts_among(parts));
    }
}

proof fn lemma_told_by_messages(messages: Seq<JsonTree>)
    ensures
        flat(messages, each_message_instructions()) == told_by_messages(messages),
    decreases messages.len(),
{
    if messages.len() > 0 {
        let message = messages.last();
        lemma_told_by_messages(messages.drop_last());
        assert(each_message_instructions()(message) == message_instructions(message));
        if let Some(JsonTree::List(parts)) = message.field("content"@) {
            lemma_texts_among(parts);
        }
        assert(flat(messages, each_message_instructions()) =~= told_by_messages(messages));
    }
}

proof fn lemma_instructions(fields: Fields, told: Seq<char>, default: Option<Seq<char>>)
    ensures
        text_of(
            with_default_instructions(with_instructions(fields, told), default),
            "instructions"@,
        ) == Some(instructions_for(text_of(fields, "instructions"@), told, default)),
{
    reveal_strlit("");
    let first = or_nothing(text_of(fields, "instructions"@));
    lemma_blank(told);
    lemma_blank(first);
    lemma_blank(or_nothing(default));
    lemma_blank(first + "\n\n"@ + told);
    lemma_blank(""@);
    if !is_blank_text(first) {
        let i = choose|i: int| 0 <= i < first.len() && !is_space(#[trigger] first[i]);
        assert((first + "\n\n"@ + told)[i] == first[i]);
    }
}

/// The instructions that chat messages give go upstream, all of them and in order, behind those
/// that the request has of its own.
pub proof fn law_messages_instruct(
    aliases: Map<Seq<char>, Seq<char>>,
    files: Files,
    default: Option<Seq<char>>,
    payload: JsonTree,
    request: Fields,
)
    requires
        speaks_by_messages(aliases, files, default, payload, request),
    ensures
        text_of(request, "instructions"@) == Some(
            instructions_for(
                payload.text_field("instructions"@),
                joined(told_by_messages(payload.list_field("messages"@)->0), "\n\n"@),
                default,
            ),
        ),
{
    let (groups, fields) = lemma_messages(aliases, files, default, payload, request);
    let messages = payload.list_field("messages"@)->0;
    lemma_told_by_messages(messages);
    lemma_completed_instructions(fields, default);
    lemma_field_names();
    let items = all_of(groups);
    let give = each_item_instructions();
    assert forall|i: int| 0 <= i < items.len() implies give(#[trigger] items[i]).len() == 0 by {
        assert(converses()(items[i]));
        assert(give(items[i]) == item_instructions(items[i]));
    }
    lemma_flat_nothing(items, give);
    let nothing = joined(flat(items, give), "\n\n"@);
    assert(nothing =~= Seq::empty());
    lemma_blank(nothing);
    let told = joined(told_by_messages(messages), "\n\n"@);
    lemma_instructions(payload->Object_0, told, default);
    assert(text_of(promoted(fields), "instructions"@) == text_of(fields, "instructions"@));
}

/// What a request says as a lone input, or does not say at all, gives no instructions: it has its
/// own, or else the default ones.
pub proof fn law_lone_input_does_not_instruct(
    aliases: Map<Seq<char>, Seq<char>>,
    files: Files,
    default: Option<Seq<char>>,
    payload: JsonTree,
    request: Fields,
)
    requires
        speaks_by_input(aliases, files, default, payload, request) && payload.list_field(
            "input"@,
        ) is None || responses_request(aliases, files, default, payload) == Ok::<Fields, Refusal>(
            request,
        ) && payload.field("input"@) is None && payload.list_field("messages"@) is None,
    ensures
        text_of(request, "instructions"@) == Some(
            instructions_for(payload.text_field("instructions"@), Seq::empty(), default),
        ),
{
    lemma_field_names();
    lemma_role_words();
    let start = prepared(aliases, payload->Object_0);
    lemma_prepared_input(aliases, payload->Object_0);
    let fields = if payload.field("input"@) is Some {
        lemma_lone_input(aliases, files, default, payload, request)
    } else {
        start.insert("input"@, JsonTree::List(Seq::empty()))
    };
    lemma_completed_instructions(fields, default);
    let items = list_of(fields, "input"@)->0;
    let give = each_item_instructions();
    assert forall|i: int| 0 <= i < items.len() implies give(#[trigger] items[i]).len() == 0 by {
        assert(converses()(items[i]));
        assert(give(items[i]) == item_instructions(items[i]));
    }
    lemma_flat_nothing(items, give);
    let nothing = joined(flat(items, give), "\n\n"@);
    assert(nothing =~= Seq::empty());
    let kept = fields.insert("input"@, JsonTree::List(items.filter(converses())));
    assert(text_of(kept, "instructions"@) == text_of(fields, "instructions"@));
    lemma_instructions(kept, nothing, default);
}

/// The words of the parts of an instructing item.
pub open spec fn words_among(parts: Seq<JsonTree>) -> Seq<Seq<char>>
    decreases parts.len(),
{
    if parts.len() == 0 {
        Seq::empty()
    } else {
        let before = words_among(parts.drop_last());
        let kind = parts.last().text_field("type"@);
        if kind == Some("text"@) || kind == Some("input_text"@) || kind == Some("output_text"@) {
            before.push(or_nothing(parts.last().text_field("text"@)))
        } else {
            before
        }
    }
}

/// The words of an instructing item.
pub open spec fn words_of_item(content: JsonTree) -> Seq<char> {
    match content {
        JsonTree::List(parts) => joined(words_among(parts), "\n\n"@),
        JsonTree::Null => ""@,
        other => in_words(other),
    }
}

/// The instructions that the items of an input give, in order.
pub open spec fn told_by_items(items: Seq<JsonTree>) -> Seq<Seq<char>>
    decreases items.len(),
{
    if items.len() == 0 {
        Seq::empty()
    } else {
        let before = told_by_items(items.drop_last());
        let content = items.last().field("content"@);
        if takes_part(items.last()) || content is None || is_blank_text(words_of_item(content->0)) {
            before
        } else {
            before.push(words_of_item(content->0))
        }
    }
}

proof fn lemma_flat_one<A, B>(item: A, give: spec_fn(A) -> Seq<B>)
    ensures
        flat(seq![item], give) == give(item),
{
    reveal_with_fuel(flat, 2);
    assert(seq![item].drop_last() =~= Seq::empty());
    assert(flat(seq![item], give) =~= give(item));
}

proof fn lemma_words_of_part(files: Files, part: JsonTree)
    requires
        content_part(files, part, false) is Ok,
    ensures
        flat(content_part(files, part, false)->Ok_0, each_plain_text()) == (if part.text_field(
            "type"@,
        ) == Some("text"@) || part.text_field("type"@) == Some("input_text"@) || part.text_field(
            "type"@,
        ) == Some("output_text"@) {
            seq![or_nothing(part.text_field("text"@))]
        } else {
            Seq::empty()
        }),
{
    lemma_role_words();
    law_part_is_kept(files, part, false);
    let made = content_part(files, part, false)->Ok_0;
    let give = each_plain_text();
    if made.len() == 1 {
        assert(made =~= seq![made[0]]);
        lemma_flat_one(made[0], give);
        assert(give(made[0]) == plain_text(made[0]));
        if made[0].text_field("type"@) == Some("input_text"@) {
            assert(plain_text(made[0]) =~= seq![or_nothing(part.text_field("text"@))]);
        }
    } else {
        assert(made =~= Seq::empty());
    }
}

proof fn lemma_words_among(files: Files, parts: Seq<JsonTree>)
    requires
        try_flat(parts, each_content_part(files, false)) is Ok,
    ensures
        flat(try_flat(parts, each_content_part(files, false))->Ok_0, each_plain_text())
            == words_among(parts),
    decreases parts.len(),
{
    let give = each_content_part(files, false);
    if parts.len() > 0 {
        let fewer = parts.drop_last();
        let last = parts.last();
        lemma_words_among(files, fewer);
        assert(give(last) == content_part(files, last, false));
        lemma_words_of_part(files, last);
        lemma_flat_add(
            try_flat(fewer, give)->Ok_0,
            content_part(files, last, false)->Ok_0,
            each_plain_text(),
        );
        assert(flat(try_flat(parts, give)->Ok_0, each_plain_text()) =~= words_among(parts));
    }
}

/// The text of an instructing item, once its content is in the form that the upstream takes.
proof fn lemma_instruction_words(files: Files, role: Seq<char>, content: JsonTree)
    requires
        role != "assistant"@,
        role_content(files, role, content) is Ok,
    ensures
        instruction_text(JsonTree::List(role_content(files, role, content)->Ok_0))
            == words_of_item(content),
{
    lemma_role_words();
    let parts = role_content(files, role, content)->Ok_0;
    let give = each_plain_text();
    if let JsonTree::List(own) = content {
        lemma_words_among(files, own);
        let out = try_flat(own, each_content_part(files, false))->Ok_0;
        if out.len() == 0 {
            assert(out =~= Seq::empty());
            lemma_flat_one(parts[0], give);
            assert(give(parts[0]) == plain_text(parts[0]));
            assert(flat(parts, give) =~= seq![""@]);
            assert(joined(seq![""@], "\n\n"@) == ""@);
            assert(words_among(own) =~= Seq::empty());
            assert(joined(words_among(own), "\n\n"@) =~= ""@);
        }
    } else {
        lemma_flat_one(parts[0], give);
        assert(parts =~= seq![parts[0]]);
        assert(give(parts[0]) == plain_text(parts[0]));
        let words = words_of_item(content);
        assert(flat(parts, give) =~= seq![words]);
        assert(joined(seq![words], "\n\n"@) == words);
    }
}

proof fn lemma_told_by_item(files: Files, item: JsonTree, made: JsonTree)
    requires
        input_item(files, item) == Ok::<Seq<JsonTree>, FileGap>(seq![made]),
    ensures
        item_instructions(made) == (if takes_part(item) || item.field("content"@) is None
            || is_blank_text(words_of_item(item.field("content"@)->0)) {
            Seq::empty()
        } else {
            seq![words_of_item(item.field("content"@)->0)]
        }),
{
    lemma_role_words();
    law_input_item_is_kept(files, item);
    assert(seq![made][0] == made);
    if !takes_part(item) {
        let role = item.text_field("role"@)->0;
        if let Some(content) = item.field("content"@) {
            let parts = role_content(files, role, content)->Ok_0;
            lemma_role_content_stays(files, files, role, content);
            lemma_parts_resolved(files, parts, false);
            assert(made.field("content"@) == Some(JsonTree::List(parts)));
            lemma_instruction_words(files, role, content);
            lemma_blank(words_of_item(content));
        }
    }
}

proof fn lemma_told_by_items(files: Files, items: Seq<JsonTree>, made: Seq<JsonTree>)
    requires
        items.len() == made.len(),
        forall|i: int|
            0 <= i < items.len() ==> input_item(files, items[i]) == Ok::<Seq<JsonTree>, FileGap>(
                seq![#[trigger] made[i]],
            ),
    ensures
        flat(made, each_item_instructions()) == told_by_items(items),
    decreases items.len(),
{
    if items.len() > 0 {
        let n = items.len() - 1;
        let fewer = made.drop_last();
        assert forall|i: int| 0 <= i < items.drop_last().len() implies input_item(
            files,
            items.drop_last()[i],
        ) == Ok::<Seq<JsonTree>, FileGap>(seq![#[trigger] fewer[i]]) by {
            assert(fewer[i] == made[i]);
        }
        lemma_told_by_items(files, items.drop_last(), fewer);
        assert(made.last() == made[n]);
        lemma_told_by_item(files, items[n], made[n]);
        assert(each_item_instructions()(made.last()) == item_instructions(made.last()));
        assert(flat(made, each_item_instructions()) =~= told_by_items(items));
    }
}

/// The instructions that the items of an input give go upstream, all of them and in order, behind
/// those that the request has of its own.
pub proof fn law_input_instructs(
    aliases: Map<Seq<char>, Seq<char>>,
    files: Files,
    default: Option<Seq<char>>,
    payload: JsonTree,
    request: Fields,
)
    requires
        speaks_by_input(aliases, files, default, payload, request),
        payload.list_field("input"@) is Some,
    ensures
        text_of(request, "instructions"@) == Some(
            instructions_for(
                payload.text_field("instructions"@),
                joined(told_by_items(payload.list_field("input"@)->0), "\n\n"@),
                default,
            ),
        ),
{
    let (made, fields) = lemma_input(aliases, files, default, payload, request);
    let items = payload.list_field("input"@)->0;
    lemma_told_by_items(files, items, made);
    lemma_completed_instructions(fields, default);
    lemma_field_names();
    let told = joined(told_by_items(items), "\n\n"@);
    let kept = fields.insert("input"@, JsonTree::List(made.filter(converses())));
    assert(text_of(kept, "instructions"@) == text_of(fields, "instructions"@));
    lemma_instructions(kept, told, default);
}

/// The model that a payload asks for, with an alias put aside.
pub open spec fn model_asked(aliases: Map<Seq<char>, Seq<char>>, payload: JsonTree) -> Seq<char> {
    let named = or_nothing(payload.text_field("model"@));
    if payload.text_field("model"@) is Some && aliases.dom().contains(named) {
        aliases[named]
    } else {
        named
    }
}

/// Whether a payload is one that can be taken at all: an object that asks for a model on offer.
pub open spec fn can_be_taken(aliases: Map<Seq<char>, Seq<char>>, payload: JsonTree) -> bool {
    payload is Object && model_names().contains(model_asked(aliases, payload))
}

/// Whether nothing that a payload says needs a stored file.
pub open spec fn payload_needs_no_file(payload: JsonTree) -> bool {
    &&& payload.list_field("messages"@) is Some ==> messages_need_no_file(
        payload.list_field("messages"@)->0,
    )
    &&& payload.list_field("input"@) is Some ==> forall|i: int|
        0 <= i < payload.list_field("input"@)->0.len() ==> item_needs_no_file(
            #[trigger] payload.list_field("input"@)->0[i],
        )
}

proof fn lemma_opened(aliases: Map<Seq<char>, Seq<char>>, payload: JsonTree)
    ensures
        payload is Object ==> has_supported_model(aliased(aliases, payload->Object_0))
            == model_names().contains(model_asked(aliases, payload)),
{
    lemma_field_names();
}

proof fn lemma_input_is_taken(files: Files, start: Fields)
    requires
        start.dom().contains("input"@),
        list_of(start, "input"@) is Some ==> forall|i: int|
            0 <= i < list_of(start, "input"@)->0.len() ==> item_needs_no_file(
                #[trigger] list_of(start, "input"@)->0[i],
            ),
    ensures
        with_input(files, start) is Ok,
{
    lemma_role_words();
    if let Some(items) = list_of(start, "input"@) {
        law_plain_items_are_taken(files, items);
    } else {
        let words = worded(start["input"@]);
        let item = user_message(words);
        let part = text_part("input_text"@, words);
        let parts = item.list_field("content"@)->0;
        assert(parts =~= seq![part]);
        assert(item_needs_no_file(item));
        assert(seq![item][0] == item);
        law_plain_items_are_taken(files, seq![item]);
    }
}

/// A request that names a model on offer and says something is taken, on either route, unless it
/// needs a stored file.
pub proof fn law_plain_requests_are_taken(
    aliases: Map<Seq<char>, Seq<char>>,
    files: Files,
    default: Option<Seq<char>>,
    payload: JsonTree,
)
    requires
        can_be_taken(aliases, payload),
        payload_needs_no_file(payload),
    ensures
        responses_request(aliases, files, default, payload) is Ok,
        payload.list_field("messages"@) is Some || payload.field("input"@) is Some
            ==> chat_request(aliases, files, default, payload) is Ok,
{
    lemma_opened(aliases, payload);
    lemma_field_names();
    let start = prepared(aliases, payload->Object_0);
    lemma_prepared_input(aliases, payload->Object_0);
    if let Some(messages) = payload.list_field("messages"@) {
        law_plain_messages_are_taken(files, messages);
    }
    if payload.field("input"@) is Some {
        lemma_input_is_taken(files, start);
    }
}

/// A request that cannot be taken at all is refused, on either route, with what is wrong with it.
pub proof fn law_other_requests_are_refused(
    aliases: Map<Seq<char>, Seq<char>>,
    files: Files,
    default: Option<Seq<char>>,
    payload: JsonTree,
)
    requires
        !can_be_taken(aliases, payload),
    ensures
        ({
            let refusal = if payload is Object {
                Refusal::Refused(
                    plain_error(
                        400,
                        "Unsupported model. Supported: "@ + joined(
                            model_names(),
                            ", "@,
                        ),
                    ),
                )
            } else {
                Refusal::Refused(plain_error(400, "Request body must be a JSON object"@))
            };
            &&& responses_request(aliases, files, default, payload) == Err::<Fields, Refusal>(
                refusal,
            )
            &&& chat_request(aliases, files, default, payload) == Err::<Fields, Refusal>(refusal)
        }),
{
    lemma_opened(aliases, payload);
}

/// A chat that says nothing is refused.
pub proof fn law_empty_chats_are_refused(
    aliases: Map<Seq<char>, Seq<char>>,
    files: Files,
    default: Option<Seq<char>>,
    payload: JsonTree,
)
    requires
        can_be_taken(aliases, payload),
        payload.list_field("messages"@) is None,
        payload.field("input"@) is None,
    ensures
        chat_request(aliases, files, default, payload) == Err::<Fields, Refusal>(
            Refusal::Refused(
                plain_error(400, "chat/completions requires either messages or input"@),
            ),
        ),
{
    lemma_opened(aliases, payload);
    lemma_prepared_input(aliases, payload->Object_0);
}

/// What holds a request up behind that is a stored file alone: one that has to be looked up, or
/// one that cannot be had.
pub proof fn law_only_files_hold_up(
    aliases: Map<Seq<char>, Seq<char>>,
    files: Files,
    default: Option<Seq<char>>,
    payload: JsonTree,
)
    requires
        can_be_taken(aliases, payload),
    ensures
        (match responses_request(aliases, files, default, payload) {
            Ok(_) => true,
            Err(refusal) => is_file_refusal(refusal),
        }),
        payload.list_field("messages"@) is Some || payload.field("input"@) is Some ==> (
        match chat_request(aliases, files, default, payload) {
            Ok(_) => true,
            Err(refusal) => is_file_refusal(refusal),
        }),
{
    lemma_opened(aliases, payload);
    lemma_prepared_input(aliases, payload->Object_0);
}

/// A file that has to be looked up is named, and one that cannot be had is told as such.
pub proof fn law_files_are_asked_for(id: Seq<char>)
    ensures
        file_refusal(FileGap::Needed(id)) == Refusal::FileNeeded(id),
        file_refusal(FileGap::Unavailable) == Refusal::Refused(
            plain_error(404, "A referenced file_id is unknown, deleted, or expired"@),
        ),
{
}

/// The text of an instructing content is itself, or its texts with an empty line between each and
/// the next.
pub proof fn law_instruction_text_is_kept(text: Seq<char>, parts: Seq<JsonTree>)
    ensures
        instruction_text(JsonTree::Text(text)) == text,
        instruction_text(JsonTree::List(parts)) == joined(texts_among(parts), "\n\n"@),
{
    lemma_texts_among(parts);
}

/// Whether a request is refused for a stored file.
pub open spec fn is_file_refusal(refusal: Refusal) -> bool {
    match refusal {
        Refusal::FileNeeded(_) => true,
        Refusal::Refused(answer) => answer == plain_error(
            404,
            "A referenced file_id is unknown, deleted, or expired"@,
        ),
    }
}

} // verus!
