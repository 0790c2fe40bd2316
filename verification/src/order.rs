//! Items put in the order of their indexes.

use vstd::prelude::*;

verus! {

/// How many items at the start have an index of at most `index`.
pub open spec fn rank<T>(items: Seq<(usize, T)>, index: usize) -> int
    decreases items.len(),
{
    if items.len() == 0 || items[0].0 > index {
        0
    } else {
        1 + rank(items.drop_first(), index)
    }
}

/// The items in the order of their indexes. Items with one index keep the
/// order that they have.
pub open spec fn ordered<T>(items: Seq<(usize, T)>) -> Seq<(usize, T)>
    decreases items.len(),
{
    if items.len() == 0 {
        Seq::empty()
    } else {
        let earlier = ordered(items.drop_last());
        earlier.insert(rank(earlier, items.last().0), items.last())
    }
}

/// Whether the indexes never fall.
pub open spec fn is_ordered<T>(items: Seq<(usize, T)>) -> bool {
    forall|i: int, j: int|
        0 <= i < j < items.len() ==> (#[trigger] items[i]).0 <= (#[trigger] items[j]).0
}

/// Where an item goes.
pub proof fn lemma_rank<T>(items: Seq<(usize, T)>, index: usize)
    ensures
        0 <= rank(items, index) <= items.len(),
        forall|i: int| 0 <= i < rank(items, index) ==> (#[trigger] items[i]).0 <= index,
        rank(items, index) < items.len() ==> items[rank(items, index)].0 > index,
    decreases items.len(),
{
    if items.len() > 0 && items[0].0 <= index {
        let rest = items.drop_first();
        lemma_rank(rest, index);
        assert forall|i: int| 0 <= i < rank(items, index) implies (#[trigger] items[i]).0
            <= index by {
            if i > 0 {
                assert(rest[i - 1].0 <= index);
            }
        }
    }
}

/// The place where an item goes is the only one that fits.
pub proof fn lemma_rank_unique<T>(items: Seq<(usize, T)>, index: usize, position: int)
    requires
        0 <= position <= items.len(),
        forall|i: int| 0 <= i < position ==> (#[trigger] items[i]).0 <= index,
        position < items.len() ==> items[position].0 > index,
    ensures
        rank(items, index) == position,
{
    lemma_rank(items, index);
    let found = rank(items, index);
    if found < position {
        assert(items[found].0 <= index);
    }
    if position < found {
        assert(items[position].0 <= index);
    }
}

/// Putting items in order loses none, adds none, and puts them in order.
pub proof fn law_ordered_is_a_sort<T>(items: Seq<(usize, T)>)
    ensures
        is_ordered(ordered(items)),
        ordered(items).to_multiset() == items.to_multiset(),
        ordered(items).len() == items.len(),
    decreases items.len(),
{
    broadcast use vstd::seq_lib::group_to_multiset_ensures;

    if items.len() == 0 {
        assert(items =~= Seq::<(usize, T)>::empty());
    } else {
        let rest = items.drop_last();
        law_ordered_is_a_sort(rest);
        let earlier = ordered(rest);
        let last = items.last();
        let position = rank(earlier, last.0);
        lemma_rank(earlier, last.0);
        let all = ordered(items);
        assert forall|i: int, j: int| 0 <= i < j < all.len() implies (#[trigger] all[i]).0 <= (
        #[trigger] all[j]).0 by {
            let a = if i < position {
                i
            } else {
                i - 1
            };
            let b = if j < position {
                j
            } else {
                j - 1
            };
            if i != position && j != position {
                assert(earlier[a].0 <= earlier[b].0);
            } else if i == position {
                if position < b {
                    assert(earlier[position].0 <= earlier[b].0);
                }
            } else {
                assert(earlier[i].0 <= last.0);
            }
        }
        assert(rest.push(last) =~= items);
    }
}

/// The items that are put in order are those that there were.
pub proof fn lemma_ordered_members<T>(items: Seq<(usize, T)>)
    ensures
        ordered(items).len() == items.len(),
        forall|i: int| 0 <= i < items.len() ==> items.contains(#[trigger] ordered(items)[i]),
        forall|i: int| 0 <= i < items.len() ==> ordered(items).contains(#[trigger] items[i]),
    decreases items.len(),
{
    if items.len() > 0 {
        let rest = items.drop_last();
        lemma_ordered_members(rest);
        let earlier = ordered(rest);
        let last = items.last();
        let position = rank(earlier, last.0);
        lemma_rank(earlier, last.0);
        let all = ordered(items);
        assert forall|i: int| 0 <= i < items.len() implies items.contains(#[trigger] all[i]) by {
            if i == position {
                assert(items[items.len() - 1] == all[i]);
            } else {
                let from = if i < position {
                    i
                } else {
                    i - 1
                };
                assert(all[i] == earlier[from]);
                let k = choose|k: int| 0 <= k < rest.len() && rest[k] == earlier[from];
                assert(items[k] == all[i]);
            }
        }
        assert forall|i: int| 0 <= i < items.len() implies all.contains(#[trigger] items[i]) by {
            if i == items.len() - 1 {
                assert(all[position] == items[i]);
            } else {
                assert(rest[i] == items[i]);
                let k = choose|k: int| 0 <= k < earlier.len() && earlier[k] == rest[i];
                let to = if k < position {
                    k
                } else {
                    k + 1
                };
                assert(all[to] == items[i]);
            }
        }
    }
}

/// Whether no index occurs twice.
pub open spec fn has_distinct_indexes<T>(items: Seq<(usize, T)>) -> bool {
    forall|i: int, j: int|
        0 <= i < j < items.len() ==> (#[trigger] items[i]).0 != (#[trigger] items[j]).0
}

/// Indexes that do not occur twice rise once they are put in order.
pub proof fn lemma_ordered_rises<T>(items: Seq<(usize, T)>)
    requires
        has_distinct_indexes(items),
    ensures
        has_distinct_indexes(ordered(items)),
        forall|i: int, j: int|
            0 <= i < j < ordered(items).len() ==> (#[trigger] ordered(items)[i]).0 < (
            #[trigger] ordered(items)[j]).0,
    decreases items.len(),
{
    law_ordered_is_a_sort(items);
    let all = ordered(items);
    if items.len() > 0 {
        let rest = items.drop_last();
        let last = items.last();
        assert forall|i: int, j: int| 0 <= i < j < rest.len() implies (#[trigger] rest[i]).0 != (
        #[trigger] rest[j]).0 by {
            assert(items[i].0 != items[j].0);
        }
        lemma_ordered_rises(rest);
        lemma_ordered_members(rest);
        let earlier = ordered(rest);
        let position = rank(earlier, last.0);
        lemma_rank(earlier, last.0);
        assert forall|i: int| 0 <= i < earlier.len() implies (#[trigger] earlier[i]).0
            != last.0 by {
            let k = choose|k: int| 0 <= k < rest.len() && rest[k] == earlier[i];
            assert(items[k].0 != items[items.len() - 1].0);
        }
        assert forall|i: int, j: int| 0 <= i < j < all.len() implies (#[trigger] all[i]).0 < (
        #[trigger] all[j]).0 by {
            let a = if i < position {
                i
            } else {
                i - 1
            };
            let b = if j < position {
                j
            } else {
                j - 1
            };
            if i == position {
                assert(all[j] == earlier[b]);
            } else if j == position {
                assert(all[i] == earlier[a]);
            } else {
                assert(all[i] == earlier[a] && all[j] == earlier[b]);
            }
            assert(all[i].0 <= all[j].0);
        }
    }
}

/// Putting items in order goes by their indexes alone.
pub proof fn lemma_ordered_map<T, U>(items: Seq<(usize, T)>, f: spec_fn(T) -> U)
    ensures
        ordered(items.map_values(|item: (usize, T)| (item.0, f(item.1)))) == ordered(
            items,
        ).map_values(|item: (usize, T)| (item.0, f(item.1))),
    decreases items.len(),
{
    let g = |item: (usize, T)| (item.0, f(item.1));
    let mapped = items.map_values(g);
    if items.len() == 0 {
        assert(mapped =~= Seq::<(usize, U)>::empty());
        assert(ordered(items).map_values(g) =~= Seq::<(usize, U)>::empty());
    } else {
        let rest = items.drop_last();
        lemma_ordered_map(rest, f);
        assert(mapped.drop_last() =~= rest.map_values(g));
        let earlier = ordered(rest);
        let index = items.last().0;
        lemma_rank(earlier, index);
        let images = earlier.map_values(g);
        assert forall|i: int| 0 <= i < rank(earlier, index) implies (#[trigger] images[i]).0
            <= index by {
            assert(earlier[i].0 <= index);
        }
        lemma_rank_unique(images, index, rank(earlier, index));
        assert(earlier.insert(rank(earlier, index), items.last()).map_values(g) =~= images.insert(
            rank(earlier, index),
            g(items.last()),
        ));
    }
}

/// Puts items in the order of their indexes.
pub fn order<T>(items: Vec<(usize, T)>) -> (sorted: Vec<(usize, T)>)
    ensures
        sorted@ == ordered(items@),
{
    let ghost all = items@;
    let total: usize = items.len();
    let mut rest = items;
    let mut sorted: Vec<(usize, T)> = Vec::new();
    let mut taken: usize = 0;
    assert(all.take(0) =~= Seq::<(usize, T)>::empty());
    while rest.len() > 0
        invariant
            total == all.len(),
            taken + rest.len() == total,
            rest@ =~= all.skip(taken as int),
            sorted@ == ordered(all.take(taken as int)),
            sorted.len() == taken,
        decreases rest.len(),
    {
        let item = rest.remove(0);
        let mut position: usize = 0;
        while position < sorted.len() && sorted[position].0 <= item.0
            invariant
                position <= sorted.len(),
                forall|i: int| 0 <= i < position ==> (#[trigger] sorted[i]).0 <= item.0,
            decreases sorted.len() - position,
        {
            position = position + 1;
        }
        proof {
            lemma_rank_unique(sorted@, item.0, position as int);
            assert(item == all[taken as int]);
            assert(all.take(taken + 1).drop_last() =~= all.take(taken as int));
            assert(all.take(taken + 1).last() == item);
        }
        sorted.insert(position, item);
        taken = taken + 1;
    }
    assert(all.take(total as int) =~= all);
    sorted
}

} // verus!
