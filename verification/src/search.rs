//! Searching a sequence for the first or the last item that a predicate
//! holds of.

use vstd::prelude::*;

verus! {

/// Whether `index` is the place of the first item of `items` that `pred`
/// holds of; the length of `items` stands for "no such item".
pub open spec fn is_first_index<T>(
    items: Seq<T>,
    pred: spec_fn(T) -> bool,
    index: int,
) -> bool {
    &&& 0 <= index <= items.len()
    &&& index < items.len() ==> pred(items[index])
    &&& forall|j: int| 0 <= j < index ==> !pred(#[trigger] items[j])
}

/// Whether `index` is the place of the last item of `items` that `pred`
/// holds of; `-1` stands for "no such item".
pub open spec fn is_last_index<T>(
    items: Seq<T>,
    pred: spec_fn(T) -> bool,
    index: int,
) -> bool {
    &&& -1 <= index < items.len()
    &&& 0 <= index ==> pred(items[index])
    &&& forall|j: int| index < j < items.len() ==> !pred(#[trigger] items[j])
}

/// The place of the first item of `items` that `pred` holds of, or the
/// length of `items` where it holds of none.
pub open spec fn first_index<T>(items: Seq<T>, pred: spec_fn(T) -> bool) -> int {
    choose|index: int| is_first_index(items, pred, index)
}

/// The place of the last item of `items` that `pred` holds of, or `-1`
/// where it holds of none.
pub open spec fn last_index<T>(items: Seq<T>, pred: spec_fn(T) -> bool) -> int {
    choose|index: int| is_last_index(items, pred, index)
}

/// The first item of `items` that `pred` holds of, if there is one.
pub open spec fn first_match<T>(items: Seq<T>, pred: spec_fn(T) -> bool) -> Option<T> {
    let index = first_index(items, pred);
    if index < items.len() {
        Some(items[index])
    } else {
        None
    }
}

/// The last item of `items` that `pred` holds of, if there is one.
pub open spec fn last_match<T>(items: Seq<T>, pred: spec_fn(T) -> bool) -> Option<T> {
    let index = last_index(items, pred);
    if 0 <= index {
        Some(items[index])
    } else {
        None
    }
}

/// There is one first place, and `first_index` names it.
pub proof fn lemma_first_index<T>(items: Seq<T>, pred: spec_fn(T) -> bool, index: int)
    requires
        is_first_index(items, pred, index),
    ensures
        first_index(items, pred) == index,
{
    let chosen = first_index(items, pred);
    assert(is_first_index(items, pred, chosen));
    if chosen < index {
        assert(!pred(items[chosen]));
    } else if index < chosen {
        assert(!pred(items[index]));
    }
}

/// There is one last place, and `last_index` names it.
pub proof fn lemma_last_index<T>(items: Seq<T>, pred: spec_fn(T) -> bool, index: int)
    requires
        is_last_index(items, pred, index),
    ensures
        last_index(items, pred) == index,
{
    let chosen = last_index(items, pred);
    assert(is_last_index(items, pred, chosen));
    if chosen < index {
        assert(!pred(items[index]));
    } else if index < chosen {
        assert(!pred(items[chosen]));
    }
}

/// Every list has a first place and a last place for every predicate.
pub proof fn lemma_indices_exist<T>(items: Seq<T>, pred: spec_fn(T) -> bool)
    ensures
        is_first_index(items, pred, first_index(items, pred)),
        is_last_index(items, pred, last_index(items, pred)),
    decreases items.len(),
{
    if items.len() == 0 {
        assert(is_first_index(items, pred, 0));
        assert(is_last_index(items, pred, -1));
    } else {
        let init = items.drop_last();
        lemma_indices_exist(init, pred);
        let f = first_index(init, pred);
        let l = last_index(init, pred);
        assert(forall|j: int| 0 <= j < init.len() ==> init[j] == items[j]);
        if f < init.len() {
            assert(is_first_index(items, pred, f));
        } else if pred(items.last()) {
            assert(is_first_index(items, pred, items.len() - 1));
        } else {
            assert(is_first_index(items, pred, items.len() as int));
        }
        if pred(items.last()) {
            assert(is_last_index(items, pred, items.len() - 1));
        } else {
            assert forall|j: int| l < j < items.len() implies !pred(#[trigger] items[j]) by {
                if j < init.len() {
                    assert(!pred(init[j]));
                }
            }
            assert(is_last_index(items, pred, l));
        }
    }
}

} // verus!
