use vstd::prelude::*;

use crate::order::{enter_in_order, in_order, lemma_order_is_unique, lists_in_order};
use crate::serde_bridge::{
    close_value, copy_number, empty_map, is_compact, map_entries, map_fields, map_insert,
    number_as_i64, number_of_signed, number_of_unsigned, open_value, parse_value,
    parse_value_bytes, parsed_bytes, parsed_text, plain_within, print_value, printed,
    signed_number, signed_reading, unsigned_number, value_entries, value_list, value_tree,
    ValueShape,
};
use crate::text::{opt_text, same_text, texts};

verus! {

/// The fields of a JSON object: what each key holds.
pub type Fields = Map<Seq<char>, JsonTree>;

/// The fields of an object that has none.
pub open spec fn no_fields() -> Fields {
    Map::empty()
}

/// What a JSON value is, apart from how it is laid out in memory.
#[verifier::ext_equal]
pub enum JsonTree {
    Null,
    Bool(bool),
    Number(serde_json::Number),
    Text(Seq<char>),
    List(Seq<JsonTree>),
    Object(Map<Seq<char>, JsonTree>),
}

impl JsonTree {
    /// What an object holds under a key.
    pub open spec fn field(self, key: Seq<char>) -> Option<JsonTree> {
        match self {
            JsonTree::Object(fields) => field_of(fields, key),
            _ => None,
        }
    }

    /// The text, of a text.
    pub open spec fn as_text(self) -> Option<Seq<char>> {
        match self {
            JsonTree::Text(text) => Some(text),
            _ => None,
        }
    }

    /// The items, of a list.
    pub open spec fn as_list(self) -> Option<Seq<JsonTree>> {
        match self {
            JsonTree::List(items) => Some(items),
            _ => None,
        }
    }

    /// The text that an object holds under a key.
    pub open spec fn text_field(self, key: Seq<char>) -> Option<Seq<char>> {
        match self.field(key) {
            Some(value) => value.as_text(),
            None => None,
        }
    }

    /// The list that an object holds under a key.
    pub open spec fn list_field(self, key: Seq<char>) -> Option<Seq<JsonTree>> {
        match self.field(key) {
            Some(value) => value.as_list(),
            None => None,
        }
    }

    /// The integer, of a number that a signed 64-bit integer can hold.
    pub open spec fn as_integer(self) -> Option<i64> {
        match self {
            JsonTree::Number(number) => signed_reading(number),
            _ => None,
        }
    }

    /// The integer that an object holds under a key.
    pub open spec fn integer_field(self, key: Seq<char>) -> Option<i64> {
        match self.field(key) {
            Some(value) => value.as_integer(),
            None => None,
        }
    }

    /// The truth value that an object holds under a key.
    pub open spec fn bool_field(self, key: Seq<char>) -> Option<bool> {
        match self.field(key) {
            Some(JsonTree::Bool(value)) => Some(value),
            _ => None,
        }
    }
}

/// What a set of fields holds under a key.
pub open spec fn field_of(fields: Fields, key: Seq<char>) -> Option<JsonTree> {
    if fields.dom().contains(key) {
        Some(fields[key])
    } else {
        None
    }
}

/// The text that a set of fields holds under a key.
pub open spec fn text_of(fields: Fields, key: Seq<char>) -> Option<Seq<char>> {
    JsonTree::Object(fields).text_field(key)
}

/// The list that a set of fields holds under a key.
pub open spec fn list_of(fields: Fields, key: Seq<char>) -> Option<Seq<JsonTree>> {
    JsonTree::Object(fields).list_field(key)
}

/// The fields with a value under a key, or with none.
pub open spec fn set_field(fields: Fields, key: Seq<char>, value: Option<JsonTree>) -> Fields {
    match value {
        Some(value) => fields.insert(key, value),
        None => fields.remove(key),
    }
}

/// What an optional JSON value is.
pub open spec fn opt_json(json: Option<Json>) -> Option<JsonTree> {
    match json {
        Some(json) => Some(json@),
        None => None,
    }
}

/// What is read behind an optional reference to a JSON value.
pub open spec fn opt_tree(json: Option<&Json>) -> Option<JsonTree> {
    match json {
        Some(json) => Some(json@),
        None => None,
    }
}

/// A member of an optional value.
pub open spec fn opt_field(value: Option<JsonTree>, key: Seq<char>) -> Option<JsonTree> {
    match value {
        Some(value) => value.field(key),
        None => None,
    }
}

/// A JSON value.
pub enum Json {
    Null,
    Bool(bool),
    Number(serde_json::Number),
    Text(String),
    List(Vec<Json>),
    Object(JsonObject),
}

/// A JSON object. Where a key is entered twice, the later entry counts.
pub struct JsonObject {
    pub(crate) entries: Vec<(String, Json)>,
}

/// What a JSON value is.
pub closed spec fn json_tree(json: Json) -> JsonTree
    decreases json,
{
    match json {
        Json::Null => JsonTree::Null,
        Json::Bool(value) => JsonTree::Bool(value),
        Json::Number(number) => JsonTree::Number(number),
        Json::Text(text) => JsonTree::Text(text@),
        Json::List(items) => JsonTree::List(list_trees(items@)),
        Json::Object(object) => JsonTree::Object(entry_trees(object.entries@)),
    }
}

/// What the items of a list are.
pub closed spec fn list_trees(items: Seq<Json>) -> Seq<JsonTree>
    decreases items,
{
    Seq::new(
        items.len(),
        |i: int|
            if 0 <= i < items.len() {
                json_tree(items[i])
            } else {
                JsonTree::Null
            },
    )
}

/// What a run of entries makes, a later one in place of an earlier one.
pub closed spec fn entry_trees(entries: Seq<(String, Json)>) -> Fields
    decreases entries,
{
    if entries.len() == 0 {
        Map::empty()
    } else {
        entry_trees(entries.drop_last()).insert(entries.last().0@, json_tree(entries.last().1))
    }
}

impl View for Json {
    type V = JsonTree;

    open spec fn view(&self) -> JsonTree {
        json_tree(*self)
    }
}

impl View for JsonObject {
    type V = Fields;

    closed spec fn view(&self) -> Fields {
        entry_trees(self.entries@)
    }
}

/// What a value is, by its shape.
pub broadcast proof fn lemma_json_view(json: Json)
    ensures
        #[trigger] json@ == (match json {
            Json::Null => JsonTree::Null,
            Json::Bool(value) => JsonTree::Bool(value),
            Json::Number(number) => JsonTree::Number(number),
            Json::Text(text) => JsonTree::Text(text@),
            Json::List(items) => JsonTree::List(list_trees(items@)),
            Json::Object(object) => JsonTree::Object(object@),
        }),
{
}

/// The trees of a list are the trees of its items, in order.
pub broadcast proof fn lemma_list_trees(items: Seq<Json>)
    ensures
        (#[trigger] list_trees(items)).len() == items.len(),
        forall|i: int| 0 <= i < items.len() ==> #[trigger] list_trees(items)[i] == items[i]@,
{
}

/// One more item is one more tree.
pub broadcast proof fn lemma_list_trees_push(items: Seq<Json>, item: Json)
    ensures
        #[trigger] list_trees(items.push(item)) == list_trees(items).push(item@),
{
    assert(list_trees(items.push(item)) =~= list_trees(items).push(item@));
}

pub broadcast group group_json {
    lemma_json_view,
    lemma_list_trees,
    lemma_list_trees_push,
}

/// Copies the items of a list.
pub(crate) fn copy_list(items: &Vec<Json>) -> (copy: Vec<Json>)
    ensures
        list_trees(copy@) == list_trees(items@),
    decreases items,
{
    let mut copy: Vec<Json> = Vec::new();
    for i in 0..items.len()
        invariant
            copy@.len() == i,
            forall|k: int| 0 <= k < i ==> json_tree(#[trigger] copy@[k]) == json_tree(items@[k]),
    {
        copy.push(items[i].copy());
    }
    proof {
        assert(list_trees(copy@) =~= list_trees(items@));
    }
    copy
}

/// A list of one item.
pub(crate) fn one_item(item: Json) -> (items: Vec<Json>)
    ensures
        list_trees(items@) == seq![item@],
{
    let mut items: Vec<Json> = Vec::new();
    items.push(item);
    proof {
        assert(list_trees(items@) =~= seq![item@]);
    }
    items
}

/// A copy of the items that are to be kept.
pub(crate) fn keep_items<F: Fn(&Json) -> bool>(
    items: &Vec<Json>,
    keeps: F,
    Ghost(kept): Ghost<spec_fn(JsonTree) -> bool>,
) -> (out: Vec<Json>)
    requires
        forall|item: &Json| #[trigger] keeps.requires((item,)),
        forall|item: &Json, answer: bool|
            keeps.ensures((item,), answer) ==> answer == kept(item@),
    ensures
        list_trees(out@) == list_trees(items@).filter(kept),
{
    let ghost all = list_trees(items@);
    let mut out: Vec<Json> = Vec::new();
    proof {
        reveal(Seq::filter);
        assert(list_trees(out@) =~= all.take(0).filter(kept));
    }
    for i in 0..items.len()
        invariant
            all == list_trees(items@),
            forall|item: &Json| #[trigger] keeps.requires((item,)),
            forall|item: &Json, answer: bool|
                keeps.ensures((item,), answer) ==> answer == kept(item@),
            list_trees(out@) == all.take(i as int).filter(kept),
    {
        proof {
            reveal(Seq::filter);
            assert(all.take(i + 1).drop_last() =~= all.take(i as int));
        }
        if keeps(&items[i]) {
            out.push(items[i].copy());
        }
    }
    proof {
        assert(all.take(all.len() as int) =~= all);
    }
    out
}

impl Json {
    /// A copy of this value.
    pub fn copy(&self) -> (copy: Json)
        ensures
            copy@ == self@,
        decreases self,
    {
        match self {
            Json::Null => Json::Null,
            Json::Bool(value) => Json::Bool(*value),
            Json::Number(number) => Json::Number(copy_number(number)),
            Json::Text(text) => Json::Text(text.clone()),
            Json::List(items) => Json::List(copy_list(items)),
            Json::Object(object) => Json::Object(object.copy()),
        }
    }

    /// A text value.
    pub fn text(text: &str) -> (json: Json)
        ensures
            json@ == JsonTree::Text(text@),
    {
        Json::Text(text.to_owned())
    }

    /// A whole number.
    pub fn integer(value: i64) -> (json: Json)
        ensures
            json@ == JsonTree::Number(number_of_signed(value)),
            json@.as_integer() == Some(value),
    {
        Json::Number(signed_number(value))
    }

    /// A count.
    pub fn count(value: u64) -> (json: Json)
        ensures
            json@ == JsonTree::Number(number_of_unsigned(value)),
    {
        Json::Number(unsigned_number(value))
    }

    /// What an object holds under a key.
    pub fn get(&self, key: &str) -> (value: Option<&Json>)
        ensures
            opt_tree(value) == self@.field(key@),
    {
        match self {
            Json::Object(object) => object.get(key),
            _ => None,
        }
    }

    /// The text, of a text.
    pub fn as_text(&self) -> (text: Option<&str>)
        ensures
            opt_text(text) == self@.as_text(),
    {
        match self {
            Json::Text(text) => Some(text.as_str()),
            _ => None,
        }
    }

    /// The items, of a list.
    pub fn as_list(&self) -> (items: Option<&Vec<Json>>)
        ensures
            items is Some == self@.as_list() is Some,
            items matches Some(items) ==> self@ == JsonTree::List(list_trees(items@)),
    {
        match self {
            Json::List(items) => Some(items),
            _ => None,
        }
    }

    /// The fields, of an object.
    pub fn as_object(&self) -> (object: Option<&JsonObject>)
        ensures
            object is Some == self@ is Object,
            object matches Some(object) ==> self@ == JsonTree::Object(object@),
    {
        match self {
            Json::Object(object) => Some(object),
            _ => None,
        }
    }

    /// The integer, of a number that a signed 64-bit integer can hold.
    pub fn as_integer(&self) -> (value: Option<i64>)
        ensures
            value == self@.as_integer(),
    {
        match self {
            Json::Number(number) => number_as_i64(number),
            _ => None,
        }
    }

    /// The text that an object holds under a key.
    pub fn text_field(&self, key: &str) -> (text: Option<&str>)
        ensures
            opt_text(text) == self@.text_field(key@),
    {
        match self.get(key) {
            Some(value) => value.as_text(),
            None => None,
        }
    }

    /// The list that an object holds under a key.
    pub fn list_field(&self, key: &str) -> (items: Option<&Vec<Json>>)
        ensures
            items is Some == self@.list_field(key@) is Some,
            items matches Some(items) ==> self@.list_field(key@) == Some(list_trees(items@)),
    {
        match self.get(key) {
            Some(value) => value.as_list(),
            None => None,
        }
    }

    /// The integer that an object holds under a key.
    pub fn integer_field(&self, key: &str) -> (value: Option<i64>)
        ensures
            value == self@.integer_field(key@),
    {
        match self.get(key) {
            Some(value) => value.as_integer(),
            None => None,
        }
    }

    /// The truth value that an object holds under a key.
    pub fn bool_field(&self, key: &str) -> (value: Option<bool>)
        ensures
            value == self@.bool_field(key@),
    {
        match self.get(key) {
            Some(Json::Bool(value)) => Some(*value),
            _ => None,
        }
    }
}

impl JsonObject {
    /// An object without fields.
    pub fn new() -> (object: JsonObject)
        ensures
            object@ == no_fields(),
    {
        JsonObject { entries: Vec::new() }
    }

    /// A copy of this object.
    pub fn copy(&self) -> (copy: JsonObject)
        ensures
            copy@ == self@,
        decreases self,
    {
        let mut entries: Vec<(String, Json)> = Vec::new();
        for i in 0..self.entries.len()
            invariant
                entries@.len() == i,
                entry_trees(entries@) == entry_trees(self.entries@.take(i as int)),
        {
            let ghost before = entries@;
            entries.push((self.entries[i].0.clone(), self.entries[i].1.copy()));
            proof {
                assert(entries@.drop_last() =~= before);
                assert(self.entries@.take(i + 1).drop_last() =~= self.entries@.take(i as int));
            }
        }
        proof {
            assert(self.entries@.take(self.entries@.len() as int) =~= self.entries@);
        }
        JsonObject { entries }
    }

    /// What the object holds under a key.
    pub fn get(&self, key: &str) -> (value: Option<&Json>)
        ensures
            opt_tree(value) == field_of(self@, key@),
    {
        let mut i: usize = self.entries.len();
        proof {
            assert(self.entries@.take(self.entries@.len() as int) =~= self.entries@);
        }
        while i > 0
            invariant
                i <= self.entries@.len(),
                field_of(self@, key@) == field_of(entry_trees(self.entries@.take(i as int)), key@),
            decreases i,
        {
            i = i - 1;
            proof {
                assert(self.entries@.take(i + 1).drop_last() =~= self.entries@.take(i as int));
            }
            if same_text(self.entries[i].0.as_str(), key) {
                return Some(&self.entries[i].1);
            }
        }
        None
    }

    /// Whether the object has a key.
    pub fn contains_key(&self, key: &str) -> (present: bool)
        ensures
            present == self@.dom().contains(key@),
    {
        self.get(key).is_some()
    }

    /// Whether the object has no field.
    pub fn is_empty(&self) -> (empty: bool)
        ensures
            empty == (self@.dom() =~= Set::empty()),
    {
        if self.entries.len() == 0 {
            true
        } else {
            proof {
                assert(self@.dom().contains(self.entries@.last().0@));
            }
            false
        }
    }

    /// Enters a value under a key, in place of what was there.
    pub fn insert(&mut self, key: &str, value: Json)
        ensures
            final(self)@ == old(self)@.insert(key@, value@),
    {
        let _ = self.remove(key);
        let ghost before = self.entries@;
        self.entries.push((key.to_owned(), value));
        proof {
            assert(self.entries@.drop_last() =~= before);
            assert(self@ =~= old(self)@.insert(key@, value@));
        }
    }

    /// Takes out what the object holds under a key.
    pub fn remove(&mut self, key: &str) -> (value: Option<Json>)
        ensures
            final(self)@ == old(self)@.remove(key@),
            value is Some == old(self)@.dom().contains(key@),
            value matches Some(value) ==> value@ == old(self)@[key@],
    {
        let mut found: Option<Json> = None;
        let mut kept: Vec<(String, Json)> = Vec::new();
        let mut all: Vec<(String, Json)> = Vec::new();
        std::mem::swap(&mut self.entries, &mut all);
        let ghost entries = all@;
        for entry in it: all
            invariant
                it.seq() == entries,
                entry_trees(kept@) == entry_trees(entries.take(it.index())).remove(key@),
                found is Some == entry_trees(entries.take(it.index())).dom().contains(key@),
                found matches Some(value) ==> value@ == entry_trees(entries.take(it.index()))[key@],
        {
            let ghost before = kept@;
            proof {
                assert(entries.take(it.index() + 1).drop_last() =~= entries.take(it.index()));
            }
            if same_text(entry.0.as_str(), key) {
                found = Some(entry.1);
            } else {
                kept.push(entry);
                proof {
                    assert(kept@.drop_last() =~= before);
                }
            }
            proof {
                assert(entry_trees(kept@) =~= entry_trees(entries.take(it.index() + 1)).remove(key@));
            }
        }
        proof {
            assert(entries.take(entries.len() as int) =~= entries);
        }
        self.entries = kept;
        found
    }

    /// Keeps the fields whose keys are accepted.
    pub(crate) fn retain_keys<F: Fn(&str) -> bool>(
        &mut self,
        accepts: F,
        Ghost(accepted): Ghost<spec_fn(Seq<char>) -> bool>,
    )
        requires
            forall|key: &str| #[trigger] accepts.requires((key,)),
            forall|key: &str, kept: bool| accepts.ensures((key,), kept) ==> kept == accepted(key@),
        ensures
            final(self)@ == old(self)@.restrict(Set::new(accepted)),
    {
        let mut kept: Vec<(String, Json)> = Vec::new();
        let mut all: Vec<(String, Json)> = Vec::new();
        std::mem::swap(&mut self.entries, &mut all);
        let ghost entries = all@;
        proof {
            assert(entry_trees(kept@) =~= entry_trees(entries.take(0)).restrict(Set::new(accepted)));
        }
        for entry in it: all
            invariant
                it.seq() == entries,
                forall|key: &str| #[trigger] accepts.requires((key,)),
                forall|key: &str, kept: bool|
                    accepts.ensures((key,), kept) ==> kept == accepted(key@),
                entry_trees(kept@) == entry_trees(entries.take(it.index())).restrict(
                    Set::new(accepted),
                ),
        {
            let ghost before = kept@;
            proof {
                assert(entries.take(it.index() + 1).drop_last() =~= entries.take(it.index()));
            }
            if accepts(entry.0.as_str()) {
                kept.push(entry);
                proof {
                    assert(kept@.drop_last() =~= before);
                }
            }
            proof {
                assert(entry_trees(kept@) =~= entry_trees(entries.take(it.index() + 1)).restrict(
                    Set::new(accepted),
                ));
            }
        }
        proof {
            assert(entries.take(entries.len() as int) =~= entries);
        }
        self.entries = kept;
    }

    /// The keys, in ascending order.
    pub fn keys(&self) -> (keys: Vec<String>)
        ensures
            texts(keys@) == in_order(self@.dom()),
    {
        let mut keys: Vec<String> = Vec::new();
        for i in 0..self.entries.len()
            invariant
                lists_in_order(
                    texts(keys@),
                    entry_trees(self.entries@.take(i as int)).dom(),
                ),
        {
            let ghost before = entry_trees(self.entries@.take(i as int)).dom();
            proof {
                assert(self.entries@.take(i + 1).drop_last() =~= self.entries@.take(i as int));
            }
            enter_in_order(&mut keys, self.entries[i].0.as_str(), Ghost(before));
            proof {
                assert(entry_trees(self.entries@.take(i + 1)).dom() =~= before.insert(
                    self.entries@[i as int].0@,
                ));
            }
        }
        proof {
            assert(self.entries@.take(self.entries@.len() as int) =~= self.entries@);
            assert(lists_in_order(texts(keys@), self@.dom()));
            lemma_order_is_unique(texts(keys@), in_order(self@.dom()), self@.dom());
        }
        keys
    }

    /// The text under a key.
    pub fn text_field(&self, key: &str) -> (text: Option<&str>)
        ensures
            opt_text(text) == text_of(self@, key@),
    {
        match self.get(key) {
            Some(value) => value.as_text(),
            None => None,
        }
    }

    /// The list under a key.
    pub fn list_field(&self, key: &str) -> (items: Option<&Vec<Json>>)
        ensures
            (match items {
                Some(items) => list_of(self@, key@) == Some(list_trees(items@)),
                None => list_of(self@, key@) is None,
            }),
    {
        match self.get(key) {
            Some(value) => value.as_list(),
            None => None,
        }
    }

    /// Enters a value under a key, or takes away what stands there.
    pub fn set(&mut self, key: &str, value: Option<Json>)
        ensures
            final(self)@ == set_field(old(self)@, key@, opt_json(value)),
    {
        match value {
            Some(value) => {
                self.insert(key, value);
            },
            None => {
                self.remove(key);
            },
        }
    }

    /// This object with a value entered under a key.
    pub fn with(self, key: &str, value: Json) -> (object: JsonObject)
        ensures
            object@ == self@.insert(key@, value@),
    {
        let mut object = self;
        object.insert(key, value);
        object
    }
}

/// An entry with a key of its own is what stands under that key.
proof fn lemma_entry_value(entries: Seq<(String, serde_json::Value)>, i: int)
    requires
        0 <= i < entries.len(),
        forall|i: int, j: int|
            0 <= i < j < entries.len() ==> (#[trigger] entries[i]).0@ != (#[trigger] entries[j]).0@,
    ensures
        value_entries(entries).dom().contains(entries[i].0@),
        value_entries(entries)[entries[i].0@] == value_tree(entries[i].1),
        value_entries(entries).dom().finite(),
    decreases entries.len(),
{
    if i < entries.len() - 1 {
        assert(entries.drop_last()[i] == entries[i]);
        lemma_entry_value(entries.drop_last(), i);
    } else if entries.len() > 1 {
        lemma_entry_value(entries.drop_last(), 0);
    } else {
        assert(value_entries(entries.drop_last()) =~= Map::empty());
    }
}

/// Reads a `serde_json::Value` into a value of this library.
pub fn from_value(value: serde_json::Value) -> (json: Json)
    ensures
        json@ == value_tree(value),
    decreases value_tree(value),
{
    match open_value(value) {
        ValueShape::Null => Json::Null,
        ValueShape::Bool(value) => Json::Bool(value),
        ValueShape::Number(number) => Json::Number(number),
        ValueShape::Text(text) => Json::Text(text),
        ValueShape::List(items) => {
            let ghost trees = value_list(items@);
            let mut out: Vec<Json> = Vec::new();
            let ghost all = items@;
            for item in it: items
                invariant
                    it.seq() == all,
                    out@.len() == it.index(),
                    value_tree(value) == JsonTree::List(value_list(all)),
                    forall|k: int| 0 <= k < it.index() ==> (#[trigger] out@[k])@ == value_tree(all[k]),
            {
                proof {
                    assert(value_list(all)[it.index()] == value_tree(item));
                    assert(decreases_to!(value_tree(value) => value_tree(value)->List_0));
                    assert(decreases_to!(value_list(all) => value_list(all)[it.index()]));
                }
                out.push(from_value(item));
            }
            proof { assert(list_trees(out@) =~= value_list(all)); }
            Json::List(out)
        },
        ValueShape::Object(map) => {
            let entries = map_entries(map);
            let ghost all = entries@;
            let mut out = JsonObject::new();
            for entry in it: entries
                invariant
                    it.seq() == all,
                    value_tree(value) == JsonTree::Object(value_entries(all)),
                    forall|i: int, j: int|
                        0 <= i < j < all.len() ==> (#[trigger] all[i]).0@ != (#[trigger] all[j]).0@,
                    out@ == value_entries(all.take(it.index())),
            {
                proof {
                    lemma_entry_value(all, it.index());
                    assert(decreases_to!(value_tree(value) => value_tree(value)->Object_0));
                    assert(decreases_to!(value_entries(all) => value_entries(all)[entry.0@]));
                    assert(all.take(it.index() + 1).drop_last() =~= all.take(it.index()));
                }
                out.insert(entry.0.as_str(), from_value(entry.1));
            }
            proof { assert(all.take(all.len() as int) =~= all); }
            Json::Object(out)
        },
    }
}

/// Writes a value of this library as a `serde_json::Value`.
pub fn to_value(json: &Json) -> (value: serde_json::Value)
    ensures
        value_tree(value) == json@,
    decreases json,
{
    match json {
        Json::Null => close_value(ValueShape::Null),
        Json::Bool(value) => close_value(ValueShape::Bool(*value)),
        Json::Number(number) => close_value(ValueShape::Number(copy_number(number))),
        Json::Text(text) => close_value(ValueShape::Text(text.clone())),
        Json::List(items) => close_value(ValueShape::List(list_to_values(items))),
        Json::Object(object) => close_value(ValueShape::Object(object_to_map(object))),
    }
}

fn list_to_values(items: &Vec<Json>) -> (values: Vec<serde_json::Value>)
    ensures
        value_list(values@) == list_trees(items@),
    decreases items,
{
    let mut values: Vec<serde_json::Value> = Vec::new();
    for i in 0..items.len()
        invariant
            values@.len() == i,
            forall|k: int| 0 <= k < i ==> value_tree(#[trigger] values@[k]) == json_tree(items@[k]),
    {
        values.push(to_value(&items[i]));
    }
    proof { assert(value_list(values@) =~= list_trees(items@)); }
    values
}

fn object_to_map(object: &JsonObject) -> (map: serde_json::Map<String, serde_json::Value>)
    ensures
        map_fields(map) == object@,
    decreases object,
{
    let mut map = empty_map();
    for i in 0..object.entries.len()
        invariant
            map_fields(map) == entry_trees(object.entries@.take(i as int)),
    {
        map_insert(&mut map, object.entries[i].0.clone(), to_value(&object.entries[i].1));
        proof { assert(object.entries@.take(i + 1).drop_last() =~= object.entries@.take(i as int)); }
    }
    proof { assert(object.entries@.take(object.entries@.len() as int) =~= object.entries@); }
    map
}

/// Reads a JSON text.
pub fn parse_json(text: &str) -> (json: Option<Json>)
    ensures
        json is Some == parsed_text(text@) is Some,
        json matches Some(json) ==> Some(json@) == parsed_text(text@),
{
    match parse_value(text) {
        Some(value) => Some(from_value(value)),
        None => None,
    }
}

/// Reads JSON bytes.
pub fn parse_json_bytes(bytes: &[u8]) -> (json: Option<Json>)
    ensures
        json is Some == parsed_bytes(bytes@) is Some,
        json matches Some(json) ==> Some(json@) == parsed_bytes(bytes@),
{
    match parse_value_bytes(bytes) {
        Some(value) => Some(from_value(value)),
        None => None,
    }
}

/// Writes a value as JSON text.
pub fn print_json(json: &Json) -> (text: String)
    ensures
        text@ == printed(json@),
        is_compact(text@),
        plain_within(json@, 64) ==> parsed_text(text@) == Some(json@),
{
    print_value(&to_value(json))
}

} // verus!
