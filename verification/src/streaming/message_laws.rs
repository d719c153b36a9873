use vstd::prelude::*;
use vstd::utf8::*;

use crate::json::JsonTree;
use crate::seqs::flat;
use crate::streaming::laws::{first_of, is_filled, item_calls, lemma_fresh_id};
use crate::streaming::message::{
    chat_message, each_message_parts, each_part_annotations, each_part_text, item_ids,
    message_parts, output_calls, output_items, part_annotations, part_text,
};
use crate::streaming::tool_calls::{
    client_id, law_tool_call_keeps_its_id, lemma_alias_untouched, usable_ids, with_client_id,
};
use crate::text::joined;

verus! {

/// What tells the names in a message apart.
proof fn lemma_message_words()
    ensures
        ""@.len() == 0,
        "role"@.len() == 4 && "role"@[0] == 'r',
        "content"@.len() == 7 && "content"@[0] == 'c',
        "refusal"@.len() == 7 && "refusal"@[0] == 'r',
        "tool_calls"@.len() == 10,
        "annotations"@.len() == 11,
        "id"@.len() == 2,
        "type"@.len() == 4 && "type"@[0] == 't' && "type"@[1] == 'y',
        "function"@.len() == 8,
        "name"@.len() == 4 && "name"@[0] == 'n',
        "arguments"@.len() == 9,
        "text"@.len() == 4 && "text"@[0] == 't' && "text"@[1] == 'e',
{
    reveal_strlit("");
    reveal_strlit("role");
    reveal_strlit("content");
    reveal_strlit("refusal");
    reveal_strlit("tool_calls");
    reveal_strlit("annotations");
    reveal_strlit("id");
    reveal_strlit("type");
    reveal_strlit("function");
    reveal_strlit("name");
    reveal_strlit("arguments");
    reveal_strlit("text");
}

/// Whether an item of an output is a tool call that a client can be told of: one with an id.
pub open spec fn is_usable_call(item: JsonTree) -> bool {
    item_calls(item) && (is_filled(item.text_field("call_id"@)) || is_filled(
        item.text_field("id"@),
    ))
}

/// `is_usable_call` as a function of the item.
pub open spec fn usable_calls() -> spec_fn(JsonTree) -> bool {
    |item: JsonTree| is_usable_call(item)
}

/// Whether a tool call of a message is the one that an item of the output makes: with its name
/// and with its arguments.
pub open spec fn tells_call(call: JsonTree, item: JsonTree) -> bool {
    let function = call.field("function"@);
    &&& call.text_field("type"@) == Some("function"@)
    &&& call.text_field("id"@) is Some
    &&& function is Some
    &&& function->0.text_field("name"@) == first_of(
        item.text_field("name"@),
        None,
        Some("custom_tool"@),
    )
    &&& function->0.text_field("arguments"@) == first_of(
        item.text_field("arguments"@),
        item.text_field("input"@),
        Some(""@),
    )
    &&& forall|key: Seq<char>|
        key != "id"@ && key != "type"@ && key != "function"@ ==> #[trigger] call.field(key) is None
    &&& forall|key: Seq<char>|
        key != "name"@ && key != "arguments"@ ==> #[trigger] function->0.field(key) is None
}

/// A chat message has nothing but who speaks, what was said or refused, the tools that are called
/// and the annotations.
pub proof fn law_message_has_nothing_else(items: Seq<JsonTree>, key: Seq<char>)
    requires
        key != "role"@,
        key != "content"@,
        key != "refusal"@,
        key != "tool_calls"@,
        key != "annotations"@,
    ensures
        chat_message(items).field(key) is None,
{
}

/// A chat message has every tool call of the output, each with its name and its arguments, in the
/// order of the output, and no others.
pub proof fn law_message_has_every_call(items: Seq<JsonTree>)
    ensures
        ({
            let calls = items.filter(usable_calls());
            let told = chat_message(items).list_field("tool_calls"@);
            &&& calls.len() == 0 ==> chat_message(items).field("tool_calls"@) is None
            &&& calls.len() > 0 ==> told is Some && told->0.len() == calls.len() && forall|k: int|
                0 <= k < calls.len() ==> tells_call(#[trigger] told->0[k], calls[k])
        }),
{
    lemma_message_words();
    lemma_calls(items);
}

proof fn lemma_calls(items: Seq<JsonTree>)
    ensures
        output_calls(items).0.len() == items.filter(usable_calls()).len(),
        forall|k: int|
            0 <= k < output_calls(items).0.len() ==> tells_call(
                #[trigger] output_calls(items).0[k],
                items.filter(usable_calls())[k],
            ),
    decreases items.len(),
{
    reveal(Seq::filter);
    lemma_message_words();
    if items.len() > 0 {
        lemma_calls(items.drop_last());
    }
}

proof fn lemma_calls_come_first(items: Seq<JsonTree>, n: int)
    requires
        0 <= n <= items.len(),
    ensures
        output_calls(items.take(n)).0.len() <= output_calls(items).0.len(),
        forall|k: int|
            0 <= k < output_calls(items.take(n)).0.len() ==> output_calls(items).0[k]
                == #[trigger] output_calls(items.take(n)).0[k],
    decreases items.len(),
{
    if n == items.len() {
        assert(items.take(n) =~= items);
    } else {
        assert(items.drop_last().take(n) =~= items.take(n));
        lemma_calls_come_first(items.drop_last(), n);
    }
}

/// Whether an item of the output has an id.
pub open spec fn has_id(item: JsonTree, id: Seq<char>) -> bool {
    item.text_field("call_id"@) == Some(id) || item.text_field("id"@) == Some(id)
}

proof fn lemma_aliases_come_from_items(items: Seq<JsonTree>, id: Seq<char>)
    requires
        forall|j: int| 0 <= j < items.len() ==> !has_id(#[trigger] items[j], id),
    ensures
        !output_calls(items).1.aliases.dom().contains(id),
    decreases items.len(),
{
    if items.len() > 0 {
        let fewer = items.drop_last();
        assert forall|j: int| 0 <= j < fewer.len() implies !has_id(#[trigger] fewer[j], id) by {
            assert(fewer[j] == items[j]);
        }
        lemma_aliases_come_from_items(fewer, id);
        let item = items[items.len() - 1];
        assert(!has_id(item, id));
        let ids = item_ids(item);
        assert(!ids.contains(id));
        let aliases = output_calls(fewer).1.aliases;
        if ids.len() > 0 {
            lemma_alias_untouched(aliases, ids, client_id(aliases, ids), id);
        }
    }
}

/// A tool call of a message is known by the call id of its item, where that has at most 40 bytes,
/// and else by the item's own id, where that is short enough. An item that shares an id with an
/// earlier one is left out here.
pub proof fn law_call_has_its_own_id(items: Seq<JsonTree>, at: int)
    requires
        0 <= at < items.len(),
        is_usable_call(items[at]),
        forall|j: int, id: Seq<char>|
            0 <= j < at && has_id(items[at], id) ==> !#[trigger] has_id(items[j], id),
    ensures
        ({
            let call_id = items[at].text_field("call_id"@);
            let item_id = items[at].text_field("id"@);
            let call_id_serves = is_filled(call_id) && encode_utf8(call_id->0).len() <= 40;
            let item_id_serves = is_filled(item_id) && encode_utf8(item_id->0).len() <= 40;
            let told = chat_message(items).list_field("tool_calls"@)->0;
            let k = items.take(at).filter(usable_calls()).len() as int;
            &&& call_id_serves ==> told[k].text_field("id"@) == call_id
            &&& !call_id_serves && item_id_serves ==> told[k].text_field("id"@) == item_id
        }),
{
    lemma_message_words();
    let before = items.take(at);
    let here = items.take(at + 1);
    let item = items[at];
    let call_id = item.text_field("call_id"@);
    let item_id = item.text_field("id"@);
    assert(here.drop_last() =~= before);
    lemma_calls(before);
    lemma_calls(items);
    lemma_calls_come_first(items, at + 1);
    if call_id is Some {
        assert(has_id(item, call_id->0));
        assert forall|j: int| 0 <= j < before.len() implies !has_id(
            #[trigger] before[j],
            call_id->0,
        ) by {
            assert(before[j] == items[j]);
        }
        lemma_aliases_come_from_items(before, call_id->0);
    }
    if item_id is Some {
        assert(has_id(item, item_id->0));
        assert forall|j: int| 0 <= j < before.len() implies !has_id(
            #[trigger] before[j],
            item_id->0,
        ) by {
            assert(before[j] == items[j]);
        }
        lemma_aliases_come_from_items(before, item_id->0);
    }
    let calls = output_calls(before).1;
    lemma_fresh_id(calls, call_id, item_id);
    let k = before.filter(usable_calls()).len() as int;
    assert(output_calls(here).0[k].text_field("id"@) == Some(
        client_id(calls.aliases, usable_ids(call_id, item_id)),
    ));
    assert(output_calls(items).0[k] == output_calls(here).0[k]);
}

/// The text under a key that the parts of one type have, put together.
pub open spec fn words_of_parts(parts: Seq<JsonTree>, kind: Seq<char>, key: Seq<char>) -> Seq<char>
    decreases parts.len(),
{
    if parts.len() == 0 {
        Seq::empty()
    } else {
        let before = words_of_parts(parts.drop_last(), kind, key);
        if parts.last().text_field("type"@) == Some(kind) && parts.last().text_field(key) is Some {
            before + parts.last().text_field(key)->0
        } else {
            before
        }
    }
}

/// The text under a key that the parts of one type have, of all messages of an output.
pub open spec fn words_of_output(items: Seq<JsonTree>, kind: Seq<char>, key: Seq<char>) -> Seq<char>
    decreases items.len(),
{
    if items.len() == 0 {
        Seq::empty()
    } else {
        let before = words_of_output(items.drop_last(), kind, key);
        if items.last().text_field("type"@) == Some("message"@) && items.last().list_field(
            "content"@,
        ) is Some {
            before + words_of_parts(items.last().list_field("content"@)->0, kind, key)
        } else {
            before
        }
    }
}

/// Whether some part of one type has a text under a key.
pub open spec fn parts_say(parts: Seq<JsonTree>, kind: Seq<char>, key: Seq<char>) -> bool {
    exists|j: int|
        0 <= j < parts.len() && (#[trigger] parts[j]).text_field("type"@) == Some(kind)
            && parts[j].text_field(key) is Some
}

/// Whether an item of an output is a message with a part of one type that has a text under a key.
pub open spec fn item_says(item: JsonTree, kind: Seq<char>, key: Seq<char>) -> bool {
    &&& item.text_field("type"@) == Some("message"@)
    &&& item.list_field("content"@) is Some
    &&& parts_say(item.list_field("content"@)->0, kind, key)
}

/// Whether a message of an output has a part of one type with a text under a key.
pub open spec fn output_says(items: Seq<JsonTree>, kind: Seq<char>, key: Seq<char>) -> bool {
    exists|i: int| 0 <= i < items.len() && item_says(#[trigger] items[i], kind, key)
}

proof fn lemma_joined_push(texts: Seq<Seq<char>>, last: Seq<char>)
    ensures
        joined(texts.push(last), ""@) == joined(texts, ""@) + last,
{
    reveal_strlit("");
    assert(texts.push(last).drop_last() =~= texts);
    if texts.len() == 0 {
        assert(joined(texts, ""@) + last =~= last);
    } else {
        assert(joined(texts, ""@) + ""@ + last =~= joined(texts, ""@) + last);
    }
}

pub(crate) proof fn lemma_joined_add(first: Seq<Seq<char>>, second: Seq<Seq<char>>)
    ensures
        joined(first + second, ""@) == joined(first, ""@) + joined(second, ""@),
    decreases second.len(),
{
    if second.len() == 0 {
        assert(first + second =~= first);
        assert(joined(first, ""@) + joined(second, ""@) =~= joined(first, ""@));
    } else {
        let fewer = second.drop_last();
        lemma_joined_add(first, fewer);
        assert(first + second =~= (first + fewer).push(second.last()));
        assert(second =~= fewer.push(second.last()));
        lemma_joined_push(first + fewer, second.last());
        lemma_joined_push(fewer, second.last());
        assert((joined(first, ""@) + joined(fewer, ""@)) + second.last() =~= joined(first, ""@) + (
        joined(fewer, ""@) + second.last()));
    }
}

pub(crate) proof fn lemma_flat_add<A, B>(first: Seq<A>, second: Seq<A>, give: spec_fn(A) -> Seq<B>)
    ensures
        flat(first + second, give) == flat(first, give) + flat(second, give),
    decreases second.len(),
{
    if second.len() == 0 {
        assert(first + second =~= first);
        assert(flat(first, give) + flat(second, give) =~= flat(first, give));
    } else {
        assert((first + second).drop_last() =~= first + second.drop_last());
        lemma_flat_add(first, second.drop_last(), give);
        assert((flat(first, give) + flat(second.drop_last(), give)) + give(second.last())
            =~= flat(first, give) + (flat(second.drop_last(), give) + give(second.last())));
    }
}

proof fn lemma_words_of_parts(parts: Seq<JsonTree>, kind: Seq<char>, key: Seq<char>)
    ensures
        joined(flat(parts, each_part_text(kind, key)), ""@) == words_of_parts(parts, kind, key),
        flat(parts, each_part_text(kind, key)).len() > 0 <==> parts_say(parts, kind, key),
    decreases parts.len(),
{
    if parts.len() > 0 {
        let fewer = parts.drop_last();
        let last = parts[parts.len() - 1];
        let give = each_part_text(kind, key);
        lemma_words_of_parts(fewer, kind, key);
        lemma_joined_add(flat(fewer, give), part_text(last, kind, key));
        assert(give(last) == part_text(last, kind, key));
        if flat(fewer, give).len() > 0 {
            let j = choose|j: int|
                0 <= j < fewer.len() && (#[trigger] fewer[j]).text_field("type"@) == Some(kind)
                    && fewer[j].text_field(key) is Some;
            assert(parts[j] == fewer[j]);
        }
        if parts_say(parts, kind, key) {
            let j = choose|j: int|
                0 <= j < parts.len() && (#[trigger] parts[j]).text_field("type"@) == Some(kind)
                    && parts[j].text_field(key) is Some;
            if j < fewer.len() {
                assert(fewer[j] == parts[j]);
            }
        }
        assert(words_of_parts(fewer, kind, key) + Seq::<char>::empty() =~= words_of_parts(
            fewer,
            kind,
            key,
        ));
    }
}

proof fn lemma_words_of_output(items: Seq<JsonTree>, kind: Seq<char>, key: Seq<char>)
    ensures
        joined(flat(flat(items, each_message_parts()), each_part_text(kind, key)), ""@)
            == words_of_output(items, kind, key),
        flat(flat(items, each_message_parts()), each_part_text(kind, key)).len() > 0
            <==> output_says(items, kind, key),
    decreases items.len(),
{
    let give = each_part_text(kind, key);
    let parts_of = each_message_parts();
    if items.len() > 0 {
        let fewer = items.drop_last();
        let last = items[items.len() - 1];
        lemma_words_of_output(fewer, kind, key);
        lemma_flat_add(flat(fewer, parts_of), message_parts(last), give);
        lemma_joined_add(flat(flat(fewer, parts_of), give), flat(message_parts(last), give));
        lemma_words_of_parts(message_parts(last), kind, key);
        assert(parts_of(last) == message_parts(last));
        assert(words_of_output(fewer, kind, key) + Seq::<char>::empty() =~= words_of_output(
            fewer,
            kind,
            key,
        ));
        if output_says(fewer, kind, key) {
            let i = choose|i: int|
                0 <= i < fewer.len() && item_says(#[trigger] fewer[i], kind, key);
            assert(items[i] == fewer[i]);
        }
        assert(item_says(last, kind, key) <==> flat(message_parts(last), give).len() > 0);
        if item_says(last, kind, key) {
            assert(item_says(items[items.len() - 1], kind, key));
        }
        if output_says(items, kind, key) {
            let i = choose|i: int|
                0 <= i < items.len() && item_says(#[trigger] items[i], kind, key);
            if i < fewer.len() {
                assert(fewer[i] == items[i]);
            }
        }
    }
}

/// A chat message says all that the messages of the output say, put together in order. Where they
/// say nothing it has their refusals, and else nothing.
pub proof fn law_message_says_all(items: Seq<JsonTree>)
    ensures
        chat_message(items).text_field("role"@) == Some("assistant"@),
        chat_message(items).field("content"@) == Some(
            if output_says(items, "output_text"@, "text"@) {
                JsonTree::Text(words_of_output(items, "output_text"@, "text"@))
            } else if output_says(items, "refusal"@, "refusal"@) {
                JsonTree::Text(words_of_output(items, "refusal"@, "refusal"@))
            } else {
                JsonTree::Null
            },
        ),
        chat_message(items).field("refusal"@) == (if output_says(
            items,
            "refusal"@,
            "refusal"@,
        ) {
            Some(JsonTree::Text(words_of_output(items, "refusal"@, "refusal"@)))
        } else {
            None
        }),
{
    lemma_message_words();
    lemma_words_of_output(items, "output_text"@, "text"@);
    lemma_words_of_output(items, "refusal"@, "refusal"@);
}

/// The annotations of the text parts among some parts, in order.
pub open spec fn notes_of_parts(parts: Seq<JsonTree>) -> Seq<JsonTree>
    decreases parts.len(),
{
    if parts.len() == 0 {
        Seq::empty()
    } else if parts.last().text_field("type"@) == Some("output_text"@) && parts.last().list_field(
        "annotations"@,
    ) is Some {
        notes_of_parts(parts.drop_last()) + parts.last().list_field("annotations"@)->0
    } else {
        notes_of_parts(parts.drop_last())
    }
}

/// The annotations of all messages of an output, in order.
pub open spec fn notes_of_output(items: Seq<JsonTree>) -> Seq<JsonTree>
    decreases items.len(),
{
    if items.len() == 0 {
        Seq::empty()
    } else if items.last().text_field("type"@) == Some("message"@) && items.last().list_field(
        "content"@,
    ) is Some {
        notes_of_output(items.drop_last()) + notes_of_parts(
            items.last().list_field("content"@)->0,
        )
    } else {
        notes_of_output(items.drop_last())
    }
}

proof fn lemma_notes_of_parts(parts: Seq<JsonTree>)
    ensures
        flat(parts, each_part_annotations()) == notes_of_parts(parts),
    decreases parts.len(),
{
    if parts.len() > 0 {
        lemma_notes_of_parts(parts.drop_last());
        assert(each_part_annotations()(parts.last()) == part_annotations(parts.last()));
        assert(flat(parts, each_part_annotations()) =~= notes_of_parts(parts));
    }
}

proof fn lemma_notes_of_output(items: Seq<JsonTree>)
    ensures
        flat(flat(items, each_message_parts()), each_part_annotations()) == notes_of_output(items),
    decreases items.len(),
{
    if items.len() > 0 {
        let fewer = items.drop_last();
        let last = items.last();
        lemma_notes_of_output(fewer);
        lemma_flat_add(
            flat(fewer, each_message_parts()),
            message_parts(last),
            each_part_annotations(),
        );
        assert(each_message_parts()(last) == message_parts(last));
        lemma_notes_of_parts(message_parts(last));
        assert(flat(flat(items, each_message_parts()), each_part_annotations())
            =~= notes_of_output(items));
    }
}

/// A chat message has every annotation of what the output says, in order.
pub proof fn law_message_has_every_annotation(items: Seq<JsonTree>)
    ensures
        chat_message(items).field("annotations"@) == (if notes_of_output(items).len() > 0 {
            Some(JsonTree::List(notes_of_output(items)))
        } else {
            None
        }),
{
    lemma_message_words();
    lemma_notes_of_output(items);
}

/// The items of an output are all of them, in order, where it is a list.
pub proof fn law_output_is_its_items(items: Seq<JsonTree>)
    ensures
        output_items(Some(JsonTree::List(items))) == items,
        output_items(None).len() == 0,
{
}

/// Two items of an output with an id in common are known by one id.
pub proof fn law_calls_with_one_id_are_one(items: Seq<JsonTree>, item: JsonTree)
    requires
        items.len() > 0,
        is_usable_call(items.last()),
        is_usable_call(item),
        is_filled(item.text_field("call_id"@)),
        item.text_field("call_id"@) == items.last().text_field("call_id"@),
    ensures
        ({
            let told = chat_message(items.push(item)).list_field("tool_calls"@)->0;
            let n = told.len() as int;
            &&& n >= 2
            &&& told[n - 1].text_field("id"@) == told[n - 2].text_field("id"@)
        }),
{
    lemma_message_words();
    let all = items.push(item);
    assert(all.drop_last() =~= items);
    let calls = output_calls(items.drop_last()).1;
    let ids = item_ids(items.last());
    let later = item_ids(item);
    assert(ids[0] == later[0]);
    assert(ids.contains(later[0]));
    law_tool_call_keeps_its_id(calls, ids, later, 0);
    assert(output_calls(items).1 == with_client_id(calls, ids));
}

} // verus!
