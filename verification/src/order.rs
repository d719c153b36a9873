use vstd::prelude::*;

use crate::text::{chars_of, same_text, texts};

verus! {

/// Whether a text comes before another, character by character.
pub open spec fn comes_before(a: Seq<char>, b: Seq<char>) -> bool
    decreases a.len(),
{
    b.len() > 0 && (a.len() == 0 || a[0] < b[0] || (a[0] == b[0] && comes_before(
        a.drop_first(),
        b.drop_first(),
    )))
}

/// Whether each of the texts comes before those behind it.
pub open spec fn ascending(list: Seq<Seq<char>>) -> bool {
    forall|i: int, j: int|
        0 <= i < j < list.len() ==> comes_before(#[trigger] list[i], #[trigger] list[j])
}

/// Whether a list holds the texts of a set in ascending order.
pub open spec fn lists_in_order(list: Seq<Seq<char>>, set: Set<Seq<char>>) -> bool {
    &&& ascending(list)
    &&& forall|text: Seq<char>| list.contains(text) <==> #[trigger] set.contains(text)
}

/// The texts of a set in ascending order.
pub open spec fn in_order(set: Set<Seq<char>>) -> Seq<Seq<char>> {
    choose|list: Seq<Seq<char>>| lists_in_order(list, set)
}

proof fn lemma_before_is_strict(a: Seq<char>)
    ensures
        !comes_before(a, a),
    decreases a.len(),
{
    if a.len() > 0 {
        lemma_before_is_strict(a.drop_first());
    }
}

proof fn lemma_before_is_transitive(a: Seq<char>, b: Seq<char>, c: Seq<char>)
    requires
        comes_before(a, b),
        comes_before(b, c),
    ensures
        comes_before(a, c),
    decreases a.len(),
{
    if a.len() > 0 && a[0] == b[0] && b[0] == c[0] {
        lemma_before_is_transitive(a.drop_first(), b.drop_first(), c.drop_first());
    }
}

proof fn lemma_before_is_total(a: Seq<char>, b: Seq<char>)
    ensures
        comes_before(a, b) || comes_before(b, a) || a == b,
    decreases a.len(),
{
    if a.len() > 0 && b.len() > 0 && a[0] == b[0] {
        lemma_before_is_total(a.drop_first(), b.drop_first());
        if a.drop_first() == b.drop_first() {
            assert(a =~= seq![a[0]] + a.drop_first());
            assert(b =~= seq![b[0]] + b.drop_first());
        }
    } else if a.len() == 0 && b.len() == 0 {
        assert(a =~= b);
    }
}

/// There is one way to list a set in order.
pub proof fn lemma_order_is_unique(a: Seq<Seq<char>>, b: Seq<Seq<char>>, set: Set<Seq<char>>)
    requires
        lists_in_order(a, set),
        lists_in_order(b, set),
    ensures
        a == b,
    decreases a.len(),
{
    if a.len() == 0 {
        if b.len() > 0 {
            assert(b.contains(b[0]));
            assert(set.contains(b[0]));
        }
        assert(a =~= b);
    } else {
        assert(a.contains(a[0]));
        assert(set.contains(a[0]));
        assert(b.contains(a[0]));
        let at_b = choose|j: int| 0 <= j < b.len() && b[j] == a[0];
        assert(b.contains(b[0]));
        assert(set.contains(b[0]));
        assert(a.contains(b[0]));
        let at_a = choose|i: int| 0 <= i < a.len() && a[i] == b[0];
        if at_b > 0 {
            assert(comes_before(b[0], b[at_b]));
            lemma_before_is_strict(a[0]);
            if at_a > 0 {
                assert(comes_before(a[0], a[at_a]));
                lemma_before_is_transitive(a[0], b[0], a[0]);
            }
        }
        let first = a[0];
        let rest = set.remove(first);
        lemma_rest_in_order(a, set);
        lemma_rest_in_order(b, set);
        lemma_order_is_unique(a.drop_first(), b.drop_first(), rest);
        assert(a =~= seq![first] + a.drop_first());
        assert(b =~= seq![first] + b.drop_first());
    }
}

proof fn lemma_rest_in_order(list: Seq<Seq<char>>, set: Set<Seq<char>>)
    requires
        lists_in_order(list, set),
        list.len() > 0,
    ensures
        lists_in_order(list.drop_first(), set.remove(list[0])),
{
    let rest = list.drop_first();
    assert forall|text: Seq<char>| rest.contains(text) <==> #[trigger] set.remove(
        list[0],
    ).contains(text) by {
        if rest.contains(text) {
            let at = choose|i: int| 0 <= i < rest.len() && rest[i] == text;
            assert(list[at + 1] == text);
            assert(list.contains(text));
            assert(comes_before(list[0], list[at + 1]));
            lemma_before_is_strict(text);
        }
        if set.remove(list[0]).contains(text) {
            assert(list.contains(text));
            let at = choose|i: int| 0 <= i < list.len() && list[i] == text;
            assert(rest[at - 1] == text);
        }
    }
    assert forall|i: int, j: int| 0 <= i < j < rest.len() implies comes_before(
        #[trigger] rest[i],
        #[trigger] rest[j],
    ) by {
        assert(rest[i] == list[i + 1] && rest[j] == list[j + 1]);
    }
}

fn text_comes_before(a: &str, b: &str) -> (answer: bool)
    ensures
        answer == comes_before(a@, b@),
{
    let first = chars_of(a);
    let second = chars_of(b);
    let mut i: usize = 0;
    proof {
        assert(first@.skip(0) =~= a@);
        assert(second@.skip(0) =~= b@);
    }
    while i < first.len() && i < second.len()
        invariant
            i <= first@.len(),
            i <= second@.len(),
            first@ == a@,
            second@ == b@,
            comes_before(a@, b@) == comes_before(first@.skip(i as int), second@.skip(i as int)),
        decreases first@.len() - i,
    {
        if first[i] < second[i] {
            return true;
        }
        if second[i] < first[i] {
            return false;
        }
        proof {
            assert(first@.skip(i as int).drop_first() =~= first@.skip(i + 1));
            assert(second@.skip(i as int).drop_first() =~= second@.skip(i + 1));
        }
        i = i + 1;
    }
    i < second.len()
}

/// Enters a text into a list in order, unless it is there.
pub(crate) fn enter_in_order(list: &mut Vec<String>, text: &str, Ghost(set): Ghost<Set<Seq<char>>>)
    requires
        lists_in_order(texts(old(list)@), set),
    ensures
        lists_in_order(texts(final(list)@), set.insert(text@)),
{
    let ghost all = texts(list@);
    let mut at: usize = 0;
    while at < list.len() && text_comes_before(list[at].as_str(), text)
        invariant
            at <= list@.len(),
            all == texts(list@),
            forall|k: int| 0 <= k < at ==> comes_before(#[trigger] all[k], text@),
        decreases list@.len() - at,
    {
        proof {
            assert(all[at as int] == list@[at as int]@);
        }
        at = at + 1;
    }
    if at < list.len() && same_text(list[at].as_str(), text) {
        proof {
            assert(all[at as int] == text@);
            assert(all.contains(text@));
            assert(set.insert(text@) =~= set) by {
                assert(set.contains(text@));
            }
        }
        return;
    }
    list.insert(at, text.to_owned());
    proof {
        let now = texts(list@);
        assert(now =~= all.insert(at as int, text@));
        if at < all.len() {
            lemma_before_is_total(all[at as int], text@);
            assert(all[at as int] == old(list)@[at as int]@);
            assert(comes_before(text@, all[at as int]));
        }
        assert forall|i: int, j: int| 0 <= i < j < now.len() implies comes_before(
            #[trigger] now[i],
            #[trigger] now[j],
        ) by {
            if j == at {
                assert(now[i] == all[i]);
            } else if i == at {
                assert(now[j] == all[j - 1]);
                if j - 1 > at {
                    assert(comes_before(all[at as int], all[j - 1]));
                    lemma_before_is_transitive(text@, all[at as int], all[j - 1]);
                }
            } else {
                let p = if i < at { i } else { i - 1 };
                let q = if j < at { j } else { j - 1 };
                assert(now[i] == all[p] && now[j] == all[q]);
            }
        }
        assert forall|other: Seq<char>| now.contains(other) <==> #[trigger] set.insert(
            text@,
        ).contains(other) by {
            if now.contains(other) && other != text@ {
                let k = choose|k: int| 0 <= k < now.len() && now[k] == other;
                let p = if k < at { k } else { k - 1 };
                assert(all[p] == other);
                assert(all.contains(other));
            }
            if set.insert(text@).contains(other) {
                if other == text@ {
                    assert(now[at as int] == other);
                } else {
                    assert(all.contains(other));
                    let p = choose|p: int| 0 <= p < all.len() && all[p] == other;
                    let k = if p < at { p } else { p + 1 };
                    assert(now[k] == other);
                }
            }
        }
    }
}

} // verus!
