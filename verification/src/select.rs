//! Choosing items of a list.

use vstd::prelude::*;

verus! {

/// The first `n` items of `items`, or all of them where there are fewer.
pub open spec fn first_items<T>(items: Seq<T>, n: nat) -> Seq<T> {
    if items.len() <= n {
        items
    } else {
        items.take(n as int)
    }
}

/// The items whose flag is set, in order.
pub open spec fn flagged<T>(items: Seq<T>, flags: Seq<bool>) -> Seq<T>
    decreases items.len(),
{
    if items.len() == 0 {
        items
    } else if flags[items.len() - 1] {
        flagged(items.drop_last(), flags).push(items.last())
    } else {
        flagged(items.drop_last(), flags)
    }
}

/// What `test` says of each item.
pub open spec fn flags_of<T>(items: Seq<T>, test: spec_fn(T) -> bool) -> Seq<bool> {
    Seq::new(items.len(), |i: int| test(items[i]))
}

/// No more items are kept than there are.
pub proof fn lemma_flagged_len<T>(items: Seq<T>, flags: Seq<bool>)
    ensures
        flagged(items, flags).len() <= items.len(),
    decreases items.len(),
{
    if items.len() > 0 {
        lemma_flagged_len(items.drop_last(), flags);
    }
}

/// Where every flag is set, every item is kept.
pub proof fn lemma_flagged_all<T>(items: Seq<T>, flags: Seq<bool>)
    requires
        forall|i: int| 0 <= i < items.len() ==> flags[i],
    ensures
        flagged(items, flags) == items,
    decreases items.len(),
{
    if items.len() > 0 {
        lemma_flagged_all(items.drop_last(), flags);
        assert(items.drop_last().push(items.last()) =~= items);
    }
}

/// Where only the first flag is not set, the rest of the items is kept.
pub proof fn lemma_flagged_rest<T>(items: Seq<T>, flags: Seq<bool>)
    requires
        items.len() > 0,
        !flags[0],
        forall|i: int| 1 <= i < items.len() ==> flags[i],
    ensures
        flagged(items, flags) == items.drop_first(),
    decreases items.len(),
{
    let front = items.drop_last();
    if items.len() > 1 {
        lemma_flagged_rest(front, flags);
        assert(front.drop_first().push(items.last()) =~= items.drop_first());
    } else {
        assert(flagged(front, flags) == front);
        assert(front =~= items.drop_first());
    }
}

/// The first item is kept, as the first, if it is flagged.
pub proof fn lemma_flagged_first<T>(items: Seq<T>, flags: Seq<bool>)
    requires
        items.len() > 0,
        flags[0],
    ensures
        flagged(items, flags).len() > 0,
        flagged(items, flags)[0] == items[0],
    decreases items.len(),
{
    if items.len() > 1 {
        lemma_flagged_first(items.drop_last(), flags);
    } else {
        assert(flagged(items.drop_last(), flags) == items.drop_last());
    }
}

/// The first two items are kept, as the first two, if both are flagged.
pub proof fn lemma_flagged_first_two<T>(items: Seq<T>, flags: Seq<bool>)
    requires
        items.len() >= 2,
        flags[0],
        flags[1],
    ensures
        flagged(items, flags).len() >= 2,
        flagged(items, flags)[0] == items[0],
        flagged(items, flags)[1] == items[1],
    decreases items.len(),
{
    if items.len() > 2 {
        lemma_flagged_first_two(items.drop_last(), flags);
    } else {
        lemma_flagged_all(items, flags);
    }
}

/// Flagged items come from flagged places, in the same order: `places[k]` is
/// where the `k`-th of them stood.
pub proof fn lemma_flagged_places<T>(items: Seq<T>, flags: Seq<bool>) -> (places: Seq<int>)
    ensures
        places.len() == flagged(items, flags).len(),
        forall|k: int|
            0 <= k < places.len() ==> 0 <= #[trigger] places[k] < items.len() && flags[places[k]]
                && items[places[k]] == flagged(items, flags)[k],
        forall|k: int, l: int| 0 <= k < l < places.len() ==> places[k] < places[l],
    decreases items.len(),
{
    if items.len() == 0 {
        Seq::empty()
    } else {
        let before = lemma_flagged_places(items.drop_last(), flags);
        if flags[items.len() - 1] {
            before.push(items.len() - 1)
        } else {
            before
        }
    }
}

/// Every flagged item is kept.
pub proof fn lemma_flagged_complete<T>(items: Seq<T>, flags: Seq<bool>)
    ensures
        forall|i: int|
            0 <= i < items.len() && flags[i] ==> flagged(items, flags).contains(
                #[trigger] items[i],
            ),
    decreases items.len(),
{
    if items.len() > 0 {
        let front = items.drop_last();
        let kept = flagged(items, flags);
        lemma_flagged_complete(front, flags);
        assert forall|i: int| 0 <= i < items.len() && flags[i] implies kept.contains(
            #[trigger] items[i],
        ) by {
            if i < front.len() {
                assert(front[i] == items[i]);
                let before = flagged(front, flags);
                let k = choose|k: int| 0 <= k < before.len() && before[k] == items[i];
                assert(kept[k] == items[i]);
            } else {
                assert(kept[kept.len() - 1] == items[i]);
            }
        }
    }
}

} // verus!
