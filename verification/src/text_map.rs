use vstd::prelude::*;

use crate::text::same_text;

verus! {

/// A table with texts as keys. Each key stands for the value that was entered last.
pub struct TextMap<V> {
    entries: Vec<(String, V)>,
}

/// What a run of entries makes, a later entry in place of an earlier one.
pub closed spec fn entry_map<V>(entries: Seq<(String, V)>) -> Map<Seq<char>, V>
    decreases entries.len(),
{
    if entries.len() == 0 {
        Map::empty()
    } else {
        entry_map(entries.drop_last()).insert(entries.last().0@, entries.last().1)
    }
}

impl<V> View for TextMap<V> {
    type V = Map<Seq<char>, V>;

    closed spec fn view(&self) -> Map<Seq<char>, V> {
        entry_map(self.entries@)
    }
}

/// What a table of strings holds under each key.
pub open spec fn string_table(table: TextMap<String>) -> Map<Seq<char>, Seq<char>> {
    table@.map_values(|text: String| text@)
}

impl<V> TextMap<V> {
    /// A table without entries.
    pub fn new() -> (table: TextMap<V>)
        ensures
            table@ == Map::<Seq<char>, V>::empty(),
    {
        TextMap { entries: Vec::new() }
    }

    /// What stands under a key.
    pub fn get(&self, key: &str) -> (value: Option<&V>)
        ensures
            value is Some == self@.dom().contains(key@),
            value matches Some(value) ==> *value == self@[key@],
    {
        let mut i: usize = self.entries.len();
        proof {
            assert(self.entries@.take(self.entries@.len() as int) =~= self.entries@);
        }
        while i > 0
            invariant
                i <= self.entries@.len(),
                self@.dom().contains(key@) == entry_map(self.entries@.take(i as int)).dom().contains(
                    key@,
                ),
                self@.dom().contains(key@) ==> self@[key@] == entry_map(
                    self.entries@.take(i as int),
                )[key@],
            decreases i,
        {
            i = i - 1;
            proof {
                assert(self.entries@.take(i + 1).drop_last() =~= self.entries@.take(i as int));
            }
            if same_text(self.entries[i].0.as_str(), key) {
                return Some(&self.entries[i].1);
            }
        }
        None
    }

    /// Whether a key has an entry.
    pub fn contains_key(&self, key: &str) -> (present: bool)
        ensures
            present == self@.dom().contains(key@),
    {
        self.get(key).is_some()
    }

    /// Enters a value under a key, in place of what was there.
    pub fn insert(&mut self, key: &str, value: V)
        ensures
            final(self)@ == old(self)@.insert(key@, value),
    {
        let mut kept: Vec<(String, V)> = Vec::new();
        let mut all: Vec<(String, V)> = Vec::new();
        std::mem::swap(&mut self.entries, &mut all);
        let ghost entries = all@;
        proof {
            assert(entry_map(kept@) =~= entry_map(entries.take(0)).remove(key@));
        }
        for entry in it: all
            invariant
                it.seq() == entries,
                entry_map(kept@) == entry_map(entries.take(it.index())).remove(key@),
        {
            let ghost before = kept@;
            proof {
                assert(entries.take(it.index() + 1).drop_last() =~= entries.take(it.index()));
            }
            if !same_text(entry.0.as_str(), key) {
                kept.push(entry);
                proof {
                    assert(kept@.drop_last() =~= before);
                }
            }
            proof {
                assert(entry_map(kept@) =~= entry_map(entries.take(it.index() + 1)).remove(key@));
            }
        }
        let ghost before = kept@;
        kept.push((key.to_owned(), value));
        proof {
            assert(entries.take(entries.len() as int) =~= entries);
            assert(kept@.drop_last() =~= before);
            assert(entry_map(kept@) =~= entry_map(entries).insert(key@, value));
        }
        self.entries = kept;
    }
}

} // verus!
