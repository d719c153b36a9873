use vstd::prelude::*;
use vstd::string::*;
use vstd::utf8::*;

use crate::digest::{hex_digest, is_hex_digit, sha256_text};
use crate::json::JsonTree;
use crate::text::{chars_of, concat, opt_string, opt_text, text_of};
use crate::text_map::{string_table, TextMap};

verus! {

/// How many bytes the id of a tool call may have for the clients.
pub const CURSOR_MAX_TOOL_CALL_ID_LEN: usize = 40;

/// What is known of the tool calls of one response.
pub struct ToolStreamState {
    item_id_to_output_index: TextMap<i64>,
    item_ids_with_arg_deltas: TextMap<bool>,
    tool_call_aliases: TextMap<String>,
    fallback_tool_index: i64,
}

/// What is known of the tool calls of one response.
#[verifier::ext_equal]
pub struct ToolCalls {
    /// The place of each item among the output, by its ids.
    pub indexes: Map<Seq<char>, i64>,
    /// The items whose arguments have arrived bit by bit.
    pub streamed: Set<Seq<char>>,
    /// The id under which a client knows each tool call, by the ids that the upstream gives it.
    pub aliases: Map<Seq<char>, Seq<char>>,
    /// The place of the next item that comes without one.
    pub next_index: i64,
}

impl View for ToolStreamState {
    type V = ToolCalls;

    closed spec fn view(&self) -> ToolCalls {
        ToolCalls {
            indexes: self.item_id_to_output_index@,
            streamed: self.item_ids_with_arg_deltas@.dom(),
            aliases: string_table(self.tool_call_aliases),
            next_index: self.fallback_tool_index,
        }
    }
}

/// The state before any tool call.
pub open spec fn no_tool_calls() -> ToolCalls {
    ToolCalls {
        indexes: Map::empty(),
        streamed: Set::empty(),
        aliases: Map::empty(),
        next_index: 0,
    }
}

/// An id that can be used: one that is there and is not empty.
pub open spec fn usable_id(id: Option<Seq<char>>) -> Seq<Seq<char>> {
    match id {
        Some(id) => if id.len() > 0 {
            seq![id]
        } else {
            Seq::empty()
        },
        None => Seq::empty(),
    }
}

/// The ids of a tool call that can be used, of two that it may have.
pub open spec fn usable_ids(first: Option<Seq<char>>, second: Option<Seq<char>>) -> Seq<Seq<char>> {
    usable_id(first) + usable_id(second)
}

/// The ids of a tool call that can be used, of all that it may have.
pub open spec fn usable_of(raw_ids: Seq<Option<&str>>) -> Seq<Seq<char>>
    decreases raw_ids.len(),
{
    if raw_ids.len() == 0 {
        Seq::empty()
    } else {
        usable_of(raw_ids.drop_last()) + usable_id(opt_text(raw_ids.last()))
    }
}

/// Of two ids, those that can be used.
pub proof fn lemma_usable_of_two(raw_ids: Seq<Option<&str>>)
    requires
        raw_ids.len() == 2,
    ensures
        usable_of(raw_ids) == usable_ids(opt_text(raw_ids[0]), opt_text(raw_ids[1])),
{
    reveal_with_fuel(usable_of, 3);
    assert(usable_of(raw_ids) =~= usable_ids(opt_text(raw_ids[0]), opt_text(raw_ids[1])));
}

/// The alias of the first of the ids that has one.
pub open spec fn known_alias(aliases: Map<Seq<char>, Seq<char>>, ids: Seq<Seq<char>>) -> Option<
    Seq<char>,
>
    decreases ids.len(),
{
    if ids.len() == 0 {
        None
    } else if aliases.dom().contains(ids[0]) {
        Some(aliases[ids[0]])
    } else {
        known_alias(aliases, ids.drop_first())
    }
}

/// Whether an id is short enough for the clients.
pub open spec fn fits_client(id: Seq<char>) -> bool {
    encode_utf8(id).len() <= CURSOR_MAX_TOOL_CALL_ID_LEN
}

/// A short id that is made from a long one.
pub open spec fn shortened(id: Seq<char>) -> Seq<char> {
    "c"@ + sha256_text(encode_utf8(id)).take(CURSOR_MAX_TOOL_CALL_ID_LEN - 1)
}

/// The first of the ids that is short enough.
pub open spec fn first_fitting(ids: Seq<Seq<char>>) -> Option<Seq<char>>
    decreases ids.len(),
{
    if ids.len() == 0 {
        None
    } else if fits_client(ids[0]) {
        Some(ids[0])
    } else {
        first_fitting(ids.drop_first())
    }
}

/// The id under which clients know a tool call with these ids: the one that it has, or else the
/// first that is short enough, or else one that is made from the first.
pub open spec fn client_id(aliases: Map<Seq<char>, Seq<char>>, ids: Seq<Seq<char>>) -> Seq<char> {
    match known_alias(aliases, ids) {
        Some(alias) => alias,
        None => match first_fitting(ids) {
            Some(id) => id,
            None => shortened(ids[0]),
        },
    }
}

/// The aliases with one alias for all of the ids.
pub open spec fn with_alias(
    aliases: Map<Seq<char>, Seq<char>>,
    ids: Seq<Seq<char>>,
    alias: Seq<char>,
) -> Map<Seq<char>, Seq<char>>
    decreases ids.len(),
{
    if ids.len() == 0 {
        aliases
    } else {
        with_alias(aliases, ids.drop_last(), alias).insert(ids.last(), alias)
    }
}

/// The state once a tool call with these ids has an id for the clients.
pub open spec fn with_client_id(calls: ToolCalls, ids: Seq<Seq<char>>) -> ToolCalls {
    if ids.len() == 0 {
        calls
    } else {
        ToolCalls {
            aliases: with_alias(calls.aliases, ids, client_id(calls.aliases, ids)),
            ..calls
        }
    }
}

/// The place of an item among the output, where it is known.
pub open spec fn known_index(calls: ToolCalls, id: Seq<char>) -> Option<i64> {
    if calls.indexes.dom().contains(id) {
        Some(calls.indexes[id])
    } else {
        None
    }
}

/// The state once the place of an item is known, by an id that it may have.
pub open spec fn with_index(calls: ToolCalls, id: Option<Seq<char>>, index: i64) -> ToolCalls {
    match id {
        Some(id) => ToolCalls { indexes: calls.indexes.insert(id, index), ..calls },
        None => calls,
    }
}

/// The state once arguments of an item have arrived, by an id that it may have.
pub open spec fn with_streamed(calls: ToolCalls, id: Option<Seq<char>>) -> ToolCalls {
    match id {
        Some(id) => ToolCalls { streamed: calls.streamed.insert(id), ..calls },
        None => calls,
    }
}

/// The place after a place.
pub open spec fn index_after(index: i64) -> i64 {
    if index == i64::MAX {
        i64::MIN
    } else {
        (index + 1) as i64
    }
}

/// Whether every id that the clients know is short enough for them.
pub open spec fn aliases_fit(calls: ToolCalls) -> bool {
    forall|id: Seq<char>| #[trigger]
        calls.aliases.dom().contains(id) ==> fits_client(calls.aliases[id])
}

/// Whether the tool calls that a message or a step of an answer tells of have ids that are short
/// enough for the clients.
pub open spec fn told_ids_fit(told: JsonTree) -> bool {
    match told.list_field("tool_calls"@) {
        Some(calls) => forall|i: int|
            0 <= i < calls.len() ==> call_id_fits(#[trigger] calls[i]),
        None => true,
    }
}

/// Whether the id of a tool call, where it is told, is short enough for the clients.
pub open spec fn call_id_fits(call: JsonTree) -> bool {
    match call.text_field("id"@) {
        Some(id) => fits_client(id),
        None => true,
    }
}

impl Default for ToolStreamState {
    fn default() -> (value: ToolStreamState)
        ensures
            value@ == no_tool_calls(),
    {
        ToolStreamState::new()
    }
}

impl ToolStreamState {
    /// The state before any tool call.
    pub fn new() -> (state: ToolStreamState)
        ensures
            state@ == no_tool_calls(),
            aliases_fit(state@),
    {
        let state = ToolStreamState {
            item_id_to_output_index: TextMap::new(),
            item_ids_with_arg_deltas: TextMap::new(),
            tool_call_aliases: TextMap::new(),
            fallback_tool_index: 0,
        };
        proof {
            assert(state@ =~= no_tool_calls());
        }
        state
    }

    /// The place of an item among the output, where it is known.
    pub(crate) fn index_of(&self, id: &str) -> (index: Option<i64>)
        ensures
            index == known_index(self@, id@),
    {
        match self.item_id_to_output_index.get(id) {
            Some(index) => Some(*index),
            None => None,
        }
    }

    /// Notes the place of an item among the output.
    pub(crate) fn note_index(&mut self, id: &str, index: i64)
        ensures
            final(self)@ == with_index(old(self)@, Some(id@), index),
    {
        self.item_id_to_output_index.insert(id, index);
    }

    /// The place of the next item that comes without one, which is then used up.
    pub(crate) fn take_index(&mut self) -> (index: i64)
        ensures
            index == old(self)@.next_index,
            final(self)@ == (ToolCalls { next_index: index_after(index), ..old(self)@ }),
    {
        let index = self.fallback_tool_index;
        self.fallback_tool_index = if index == i64::MAX {
            i64::MIN
        } else {
            index + 1
        };
        index
    }

    /// Notes that the arguments of an item arrive bit by bit.
    pub(crate) fn note_streamed(&mut self, id: &str)
        ensures
            final(self)@ == with_streamed(old(self)@, Some(id@)),
    {
        let ghost before = self@;
        self.item_ids_with_arg_deltas.insert(id, true);
        proof {
            assert(self@.streamed =~= before.streamed.insert(id@));
        }
    }

    /// Whether the arguments of an item have arrived bit by bit.
    pub(crate) fn has_streamed(&self, id: &str) -> (streamed: bool)
        ensures
            streamed == self@.streamed.contains(id@),
    {
        self.item_ids_with_arg_deltas.contains_key(id)
    }

    fn find_alias(&self, ids: &Vec<&str>) -> (alias: Option<String>)
        ensures
            opt_string(alias) == known_alias(self@.aliases, str_texts(ids@)),
    {
        let ghost all = str_texts(ids@);
        proof {
            assert(all.skip(0) =~= all);
        }
        for i in 0..ids.len()
            invariant
                all == str_texts(ids@),
                known_alias(self@.aliases, all) == known_alias(self@.aliases, all.skip(i as int)),
        {
            proof {
                assert(all.skip(i as int).drop_first() =~= all.skip(i + 1));
                assert(all.skip(i as int)[0] == ids@[i as int]@);
            }
            if let Some(existing) = self.tool_call_aliases.get(ids[i]) {
                return Some(existing.clone());
            }
        }
        None
    }

    fn alias_all(&mut self, ids: &Vec<&str>, alias: &str)
        ensures
            final(self)@ == (ToolCalls {
                aliases: with_alias(old(self)@.aliases, str_texts(ids@), alias@),
                ..old(self)@
            }),
    {
        let ghost all = str_texts(ids@);
        let ghost before = self@;
        proof {
            assert(all.take(0) =~= Seq::empty());
        }
        for i in 0..ids.len()
            invariant
                all == str_texts(ids@),
                self@ == (ToolCalls {
                    aliases: with_alias(before.aliases, all.take(i as int), alias@),
                    ..before
                }),
        {
            let ghost now = self@;
            proof {
                assert(all.take(i + 1).drop_last() =~= all.take(i as int));
            }
            self.tool_call_aliases.insert(ids[i], alias.to_owned());
            proof {
                assert(self@.aliases =~= now.aliases.insert(ids@[i as int]@, alias@));
            }
        }
        proof {
            assert(all.take(all.len() as int) =~= all);
        }
    }

    /// The id under which clients know a tool call, by the ids that the upstream gives it.
    /// Clients take no long ids: a call whose ids are all long gets one that is made from the
    /// first. A call keeps its id whichever of its ids it comes by.
    pub fn ensure_cursor_tool_call_id(&mut self, raw_ids: &[Option<&str>]) -> (id: Option<String>)
        ensures
            ({
                let ids = usable_of(raw_ids@);
                &&& final(self)@ == with_client_id(old(self)@, ids)
                &&& opt_string(id) == (if ids.len() == 0 {
                    None::<Seq<char>>
                } else {
                    Some(client_id(old(self)@.aliases, ids))
                })
            }),
            aliases_fit(old(self)@) ==> aliases_fit(final(self)@),
            aliases_fit(old(self)@) && id is Some ==> fits_client(id->0@),
    {
        let mut ids: Vec<&str> = Vec::new();
        proof {
            assert(str_texts(ids@) =~= usable_of(raw_ids@.take(0)));
        }
        for i in 0..raw_ids.len()
            invariant
                str_texts(ids@) == usable_of(raw_ids@.take(i as int)),
        {
            proof {
                assert(raw_ids@.take(i + 1).drop_last() =~= raw_ids@.take(i as int));
            }
            add_usable(&mut ids, raw_ids[i]);
        }
        proof {
            assert(raw_ids@.take(raw_ids@.len() as int) =~= raw_ids@);
        }
        if ids.len() == 0 {
            return None;
        }
        let alias = match self.find_alias(&ids) {
            Some(alias) => alias,
            None => choose_id(&ids),
        };
        proof {
            if aliases_fit(self@) {
                if known_alias(self@.aliases, str_texts(ids@)) is Some {
                    lemma_known_alias_fits(self@, str_texts(ids@));
                }
                lemma_with_alias_fits(self@, str_texts(ids@), alias@);
            }
        }
        self.alias_all(&ids, alias.as_str());
        Some(alias)
    }
}

/// What the strings of a list of references spell.
pub open spec fn str_texts(strings: Seq<&str>) -> Seq<Seq<char>> {
    strings.map_values(|text: &str| text@)
}

fn add_usable<'a>(ids: &mut Vec<&'a str>, id: Option<&'a str>)
    ensures
        str_texts(final(ids)@) == str_texts(old(ids)@) + usable_id(opt_text(id)),
{
    let ghost before = ids@;
    if let Some(id) = id {
        if !id.is_empty() {
            ids.push(id);
        }
    }
    proof {
        assert(str_texts(ids@) =~= str_texts(before) + usable_id(opt_text(id)));
    }
}

fn choose_id(ids: &Vec<&str>) -> (id: String)
    requires
        ids@.len() > 0,
    ensures
        id@ == (match first_fitting(str_texts(ids@)) {
            Some(id) => id,
            None => shortened(str_texts(ids@)[0]),
        }),
        fits_client(id@),
{
    let ghost all = str_texts(ids@);
    proof {
        assert(all.skip(0) =~= all);
    }
    for i in 0..ids.len()
        invariant
            all == str_texts(ids@),
            first_fitting(all) == first_fitting(all.skip(i as int)),
    {
        proof {
            assert(all.skip(i as int).drop_first() =~= all.skip(i + 1));
            assert(all.skip(i as int)[0] == ids@[i as int]@);
        }
        if ids[i].as_bytes().len() <= CURSOR_MAX_TOOL_CALL_ID_LEN {
            return ids[i].to_owned();
        }
    }
    shorten(ids[0])
}

fn shorten(id: &str) -> (short: String)
    ensures
        short@ == shortened(id@),
        fits_client(short@),
{
    let hex = hex_digest(id.as_bytes());
    let chars = chars_of(hex.as_str());
    let start = text_of(&chars, 0, CURSOR_MAX_TOOL_CALL_ID_LEN - 1);
    let short = concat("c", start.as_str());
    proof {
        reveal_strlit("c");
        assert(is_ascii_chars(short@)) by {
            assert forall|i: int| 0 <= i < short@.len() implies '\0' <= #[trigger] short@[i]
                <= '\u{7f}' by {
                if i > 0 {
                    assert(is_hex_digit(hex@[i - 1]));
                    assert(short@[i] == hex@[i - 1]);
                }
            }
        }
        is_ascii_chars_encode_utf8(short@);
    }
    short
}

proof fn lemma_known_alias_fits(calls: ToolCalls, ids: Seq<Seq<char>>)
    requires
        aliases_fit(calls),
        known_alias(calls.aliases, ids) is Some,
    ensures
        fits_client(known_alias(calls.aliases, ids)->0),
    decreases ids.len(),
{
    if !calls.aliases.dom().contains(ids[0]) {
        lemma_known_alias_fits(calls, ids.drop_first());
    }
}

proof fn lemma_with_alias_fits(calls: ToolCalls, ids: Seq<Seq<char>>, alias: Seq<char>)
    requires
        aliases_fit(calls),
        fits_client(alias),
    ensures
        aliases_fit(ToolCalls { aliases: with_alias(calls.aliases, ids, alias), ..calls }),
    decreases ids.len(),
{
    if ids.len() > 0 {
        lemma_with_alias_fits(calls, ids.drop_last(), alias);
        let fewer = ToolCalls {
            aliases: with_alias(calls.aliases, ids.drop_last(), alias),
            ..calls
        };
        let more = with_alias(calls.aliases, ids, alias);
        assert forall|id: Seq<char>| #[trigger] more.dom().contains(id) implies fits_client(
            more[id],
        ) by {
            if id != ids.last() {
                assert(fewer.aliases.dom().contains(id));
            }
        }
    }
}

pub(crate) proof fn lemma_with_alias(
    aliases: Map<Seq<char>, Seq<char>>,
    ids: Seq<Seq<char>>,
    alias: Seq<char>,
    id: Seq<char>,
)
    requires
        ids.contains(id),
    ensures
        with_alias(aliases, ids, alias).dom().contains(id),
        with_alias(aliases, ids, alias)[id] == alias,
    decreases ids.len(),
{
    if ids.last() != id {
        let at = choose|i: int| 0 <= i < ids.len() && ids[i] == id;
        assert(ids.drop_last()[at] == id);
        lemma_with_alias(aliases, ids.drop_last(), alias, id);
    }
}

/// A tool call keeps the id under which clients know it, whichever of its ids it comes by next,
/// and whatever new ids it comes with.
pub proof fn law_tool_call_keeps_its_id(
    calls: ToolCalls,
    ids: Seq<Seq<char>>,
    later: Seq<Seq<char>>,
    at: int,
)
    requires
        0 <= at < later.len(),
        ids.contains(later[at]),
        forall|i: int|
            0 <= i < at ==> ids.contains(#[trigger] later[i]) || !calls.aliases.dom().contains(
                later[i],
            ),
    ensures
        client_id(with_client_id(calls, ids).aliases, later) == client_id(calls.aliases, ids),
{
    lemma_keeps_alias(calls.aliases, ids, client_id(calls.aliases, ids), later, at);
}

proof fn lemma_keeps_alias(
    aliases: Map<Seq<char>, Seq<char>>,
    ids: Seq<Seq<char>>,
    alias: Seq<char>,
    later: Seq<Seq<char>>,
    at: int,
)
    requires
        0 <= at < later.len(),
        ids.contains(later[at]),
        forall|i: int|
            0 <= i < at ==> ids.contains(#[trigger] later[i]) || !aliases.dom().contains(later[i]),
    ensures
        known_alias(with_alias(aliases, ids, alias), later) == Some(alias),
    decreases later.len(),
{
    if ids.contains(later[0]) {
        lemma_with_alias(aliases, ids, alias, later[0]);
    } else {
        lemma_alias_untouched(aliases, ids, alias, later[0]);
        let rest = later.drop_first();
        assert(rest[at - 1] == later[at]);
        assert forall|i: int| 0 <= i < at - 1 implies ids.contains(#[trigger] rest[i])
            || !aliases.dom().contains(rest[i]) by {
            assert(rest[i] == later[i + 1]);
        }
        lemma_keeps_alias(aliases, ids, alias, rest, at - 1);
    }
}

/// Two tool calls without an id in common do not disturb each other.
pub proof fn law_tool_calls_stay_apart(calls: ToolCalls, ids: Seq<Seq<char>>, other: Seq<char>)
    requires
        !ids.contains(other),
    ensures
        client_id(with_client_id(calls, ids).aliases, seq![other]) == client_id(
            calls.aliases,
            seq![other],
        ),
{
    if ids.len() > 0 {
        lemma_alias_untouched(calls.aliases, ids, client_id(calls.aliases, ids), other);
        let aliases = with_client_id(calls, ids).aliases;
        assert(seq![other].drop_first() =~= Seq::empty());
        reveal_with_fuel(known_alias, 2);
        assert(known_alias(aliases, seq![other]) == known_alias(calls.aliases, seq![other]));
    }
}

pub(crate) proof fn lemma_alias_untouched(
    aliases: Map<Seq<char>, Seq<char>>,
    ids: Seq<Seq<char>>,
    alias: Seq<char>,
    other: Seq<char>,
)
    requires
        !ids.contains(other),
    ensures
        with_alias(aliases, ids, alias).dom().contains(other) == aliases.dom().contains(other),
        with_alias(aliases, ids, alias)[other] == aliases[other],
    decreases ids.len(),
{
    if ids.len() > 0 {
        assert(ids.last() != other) by {
            assert(ids.contains(ids.last()));
        }
        assert(!ids.drop_last().contains(other)) by {
            if ids.drop_last().contains(other) {
                let at = choose|i: int| 0 <= i < ids.drop_last().len() && ids.drop_last()[i] == other;
                assert(ids[at] == other);
            }
        }
        lemma_alias_untouched(aliases, ids.drop_last(), alias, other);
    }
}

} // verus!
