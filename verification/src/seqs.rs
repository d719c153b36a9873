use vstd::prelude::*;

verus! {

/// What each item of a sequence gives, one after the other.
pub open spec fn flat<A, B>(items: Seq<A>, give: spec_fn(A) -> Seq<B>) -> Seq<B>
    decreases items.len(),
{
    if items.len() == 0 {
        Seq::empty()
    } else {
        flat(items.drop_last(), give) + give(items.last())
    }
}

/// What each item of a sequence gives, one after the other, up to the first that fails.
pub open spec fn try_flat<A, B, E>(
    items: Seq<A>,
    give: spec_fn(A) -> Result<Seq<B>, E>,
) -> Result<Seq<B>, E>
    decreases items.len(),
{
    if items.len() == 0 {
        Ok(Seq::empty())
    } else {
        match try_flat(items.drop_last(), give) {
            Ok(before) => match give(items.last()) {
                Ok(last) => Ok(before + last),
                Err(error) => Err(error),
            },
            Err(error) => Err(error),
        }
    }
}

/// A failure among the first items is the failure of the whole.
pub proof fn lemma_try_flat_fails<A, B, E>(
    items: Seq<A>,
    give: spec_fn(A) -> Result<Seq<B>, E>,
    n: int,
)
    requires
        0 <= n <= items.len(),
        try_flat(items.take(n), give) is Err,
    ensures
        try_flat(items, give) == try_flat(items.take(n), give),
    decreases items.len(),
{
    if n < items.len() {
        assert(items.drop_last().take(n) =~= items.take(n));
        lemma_try_flat_fails(items.drop_last(), give, n);
    } else {
        assert(items.take(n) =~= items);
    }
}

/// What holds of all that each item gives holds of all that is given.
pub proof fn lemma_try_flat_holds<A, B, E>(
    items: Seq<A>,
    give: spec_fn(A) -> Result<Seq<B>, E>,
    holds: spec_fn(B) -> bool,
)
    requires
        forall|item: A, k: int|
            (#[trigger] give(item)) is Ok && 0 <= k < give(item)->Ok_0.len() ==> holds(
                #[trigger] give(item)->Ok_0[k],
            ),
        try_flat(items, give) is Ok,
    ensures
        forall|k: int|
            0 <= k < try_flat(items, give)->Ok_0.len() ==> holds(
                #[trigger] try_flat(items, give)->Ok_0[k],
            ),
    decreases items.len(),
{
    if items.len() > 0 {
        lemma_try_flat_holds(items.drop_last(), give, holds);
        let before = try_flat(items.drop_last(), give)->Ok_0;
        let last = give(items.last())->Ok_0;
        let all = try_flat(items, give)->Ok_0;
        assert forall|k: int| 0 <= k < all.len() implies holds(#[trigger] all[k]) by {
            if k < before.len() {
                assert(all[k] == before[k]);
            } else {
                assert(all[k] == last[k - before.len()]);
            }
        }
    }
}

/// What holds of every failure of an item holds of the failure of all.
pub proof fn lemma_try_flat_failure<A, B, E>(
    items: Seq<A>,
    give: spec_fn(A) -> Result<Seq<B>, E>,
    holds: spec_fn(E) -> bool,
)
    requires
        forall|item: A| (#[trigger] give(item)) is Err ==> holds(give(item)->Err_0),
    ensures
        try_flat(items, give) is Err ==> holds(try_flat(items, give)->Err_0),
    decreases items.len(),
{
    if items.len() > 0 {
        lemma_try_flat_failure(items.drop_last(), give, holds);
    }
}

/// Items that each give themselves are given as they are.
pub proof fn lemma_try_flat_same<A, E>(items: Seq<A>, give: spec_fn(A) -> Result<Seq<A>, E>)
    requires
        forall|i: int|
            0 <= i < items.len() ==> give(#[trigger] items[i]) == Ok::<Seq<A>, E>(seq![items[i]]),
    ensures
        try_flat(items, give) == Ok::<Seq<A>, E>(items),
    decreases items.len(),
{
    if items.len() > 0 {
        let fewer = items.drop_last();
        assert forall|i: int| 0 <= i < fewer.len() implies give(#[trigger] fewer[i]) == Ok::<
            Seq<A>,
            E,
        >(seq![fewer[i]]) by {
            assert(fewer[i] == items[i]);
        }
        lemma_try_flat_same(fewer, give);
        assert(items.last() == items[items.len() - 1]);
        assert(fewer + seq![items.last()] =~= items);
    } else {
        assert(items =~= Seq::empty());
    }
}

/// Items that each give nothing give nothing together.
pub proof fn lemma_flat_nothing<A, B>(items: Seq<A>, give: spec_fn(A) -> Seq<B>)
    requires
        forall|i: int| 0 <= i < items.len() ==> give(#[trigger] items[i]).len() == 0,
    ensures
        flat(items, give) == Seq::<B>::empty(),
    decreases items.len(),
{
    if items.len() > 0 {
        let fewer = items.drop_last();
        assert forall|i: int| 0 <= i < fewer.len() implies give(#[trigger] fewer[i]).len()
            == 0 by {
            assert(fewer[i] == items[i]);
        }
        lemma_flat_nothing(fewer, give);
        assert(items.last() == items[items.len() - 1]);
        assert(flat(items, give) =~= Seq::empty());
    }
}

/// Nothing is sifted out where all is to be kept.
pub proof fn lemma_filter_same<A>(items: Seq<A>, kept: spec_fn(A) -> bool)
    requires
        forall|i: int| 0 <= i < items.len() ==> kept(#[trigger] items[i]),
    ensures
        items.filter(kept) == items,
    decreases items.len(),
{
    reveal(Seq::filter);
    if items.len() > 0 {
        let fewer = items.drop_last();
        assert forall|i: int| 0 <= i < fewer.len() implies kept(#[trigger] fewer[i]) by {
            assert(fewer[i] == items[i]);
        }
        lemma_filter_same(fewer, kept);
        assert(kept(items[items.len() - 1]));
        assert(fewer.push(items.last()) =~= items);
    } else {
        assert(items.filter(kept) =~= items);
    }
}

} // verus!
