//! Searching a sequence from the front, and replacing what the search finds.
//!
//! The keyed collections of this crate are sequences in which no key occurs
//! twice; they are read and written through the functions below.

use vstd::prelude::*;

verus! {

/// The least index at or after `from` whose item satisfies `pred`.
pub open spec fn first_index_from<T>(items: Seq<T>, pred: spec_fn(T) -> bool, from: int) -> Option<
    int,
>
    decreases items.len() - from,
{
    if from >= items.len() {
        None
    } else if pred(items[from]) {
        Some(from)
    } else {
        first_index_from(items, pred, from + 1)
    }
}

/// The least index whose item satisfies `pred`.
pub open spec fn first_index<T>(items: Seq<T>, pred: spec_fn(T) -> bool) -> Option<int> {
    first_index_from(items, pred, 0)
}

/// `items` with `item` in the place of the first item that satisfies `pred`,
/// or at the end where no item does.
pub open spec fn replace_or_push<T>(items: Seq<T>, pred: spec_fn(T) -> bool, item: T) -> Seq<T> {
    match first_index(items, pred) {
        Some(i) => items.update(i, item),
        None => items.push(item),
    }
}

/// What the search returns is the least index that satisfies the predicate,
/// and it returns nothing only where no index does.
pub proof fn lemma_first_index_from<T>(items: Seq<T>, pred: spec_fn(T) -> bool, from: int)
    requires
        0 <= from,
    ensures
        match first_index_from(items, pred, from) {
            Some(i) => from <= i < items.len() && pred(items[i]) && forall|j: int|
                from <= j < i ==> !pred(#[trigger] items[j]),
            None => forall|j: int| from <= j < items.len() ==> !pred(#[trigger] items[j]),
        },
    decreases items.len() - from,
{
    if from < items.len() && !pred(items[from]) {
        lemma_first_index_from(items, pred, from + 1);
    }
}

/// The search from the front: see `lemma_first_index_from`.
pub proof fn lemma_first_index<T>(items: Seq<T>, pred: spec_fn(T) -> bool)
    ensures
        match first_index(items, pred) {
            Some(i) => 0 <= i < items.len() && pred(items[i]) && forall|j: int|
                0 <= j < i ==> !pred(#[trigger] items[j]),
            None => forall|j: int| 0 <= j < items.len() ==> !pred(#[trigger] items[j]),
        },
{
    lemma_first_index_from(items, pred, 0);
}

/// An index that satisfies the predicate, with none before it that does, is
/// the one the search returns.
pub proof fn lemma_first_index_is<T>(items: Seq<T>, pred: spec_fn(T) -> bool, i: int)
    requires
        0 <= i < items.len(),
        pred(items[i]),
        forall|j: int| 0 <= j < i ==> !pred(#[trigger] items[j]),
    ensures
        first_index(items, pred) == Some(i),
{
    lemma_first_index(items, pred);
}

/// Two searches agree where, place by place, the one predicate holds of the
/// one sequence's item exactly where the other holds of the other's.
pub proof fn lemma_first_index_agrees<T, U>(
    items: Seq<T>,
    pred: spec_fn(T) -> bool,
    others: Seq<U>,
    other_pred: spec_fn(U) -> bool,
)
    requires
        items.len() == others.len(),
        forall|j: int| 0 <= j < items.len() ==> pred(#[trigger] items[j]) == other_pred(others[j]),
    ensures
        first_index(items, pred) == first_index(others, other_pred),
{
    lemma_first_index(items, pred);
    lemma_first_index(others, other_pred);
    match first_index(items, pred) {
        Some(i) => {
            assert(other_pred(others[i]));
            match first_index(others, other_pred) {
                Some(k) => {
                    assert(pred(items[k]));
                },
                None => {},
            }
        },
        None => {
            match first_index(others, other_pred) {
                Some(k) => {
                    assert(pred(items[k]));
                },
                None => {},
            }
        },
    }
}

/// The search in a sequence with one more item at its end finds what the
/// search in the sequence finds, and the new item where that finds nothing
/// and the item satisfies the predicate.
pub proof fn lemma_first_index_push<T>(items: Seq<T>, pred: spec_fn(T) -> bool, item: T)
    ensures
        first_index(items.push(item), pred) == match first_index(items, pred) {
            Some(i) => Some(i),
            None => if pred(item) {
                Some(items.len() as int)
            } else {
                None
            },
        },
{
    let longer = items.push(item);
    lemma_first_index(items, pred);
    match first_index(items, pred) {
        Some(i) => {
            assert(longer[i] == items[i]);
            assert forall|j: int| 0 <= j < i implies !pred(#[trigger] longer[j]) by {
                assert(longer[j] == items[j]);
            }
            lemma_first_index_is(longer, pred, i);
        },
        None => {
            assert forall|j: int| 0 <= j < items.len() implies !pred(#[trigger] longer[j]) by {
                assert(longer[j] == items[j]);
            }
            if pred(item) {
                lemma_first_index_is(longer, pred, items.len() as int);
            } else {
                lemma_first_index(longer, pred);
            }
        },
    }
}

} // verus!
