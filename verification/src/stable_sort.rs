//! Replies in the order of the parties that sent them.

use vstd::prelude::*;

verus! {

/// `item` put behind every item whose key is not larger.
pub open spec fn inserted<T>(sorted: Seq<(u16, T)>, item: (u16, T)) -> Seq<(u16, T)>
    decreases sorted.len(),
{
    if sorted.len() == 0 || sorted.last().0 <= item.0 {
        sorted.push(item)
    } else {
        inserted(sorted.drop_last(), item).push(sorted.last())
    }
}

/// The items by ascending key; items with one key keep their order.
pub open spec fn stable_sorted<T>(items: Seq<(u16, T)>) -> Seq<(u16, T)>
    decreases items.len(),
{
    if items.len() == 0 {
        items
    } else {
        inserted(stable_sorted(items.drop_last()), items.last())
    }
}

/// The first item of each run of one key.
pub open spec fn first_of_each<T>(items: Seq<(u16, T)>) -> Seq<(u16, T)>
    decreases items.len(),
{
    if items.len() <= 1 {
        items
    } else {
        let front = items.drop_last();
        if front.last().0 == items.last().0 {
            first_of_each(front)
        } else {
            first_of_each(front).push(items.last())
        }
    }
}

pub open spec fn ascending<T>(items: Seq<(u16, T)>) -> bool {
    forall|i: int, j: int| 0 <= i <= j < items.len() ==> items[i].0 <= items[j].0
}

proof fn lemma_inserted<T>(sorted: Seq<(u16, T)>, item: (u16, T), at: int)
    requires
        0 <= at <= sorted.len(),
        at == 0 || sorted[at - 1].0 <= item.0,
        forall|i: int| at <= i < sorted.len() ==> (#[trigger] sorted[i]).0 > item.0,
    ensures
        inserted(sorted, item) == sorted.insert(at, item),
    decreases sorted.len(),
{
    if at == sorted.len() {
        assert(sorted.insert(at, item) =~= sorted.push(item));
    } else {
        assert(sorted.last().0 > item.0);
        lemma_inserted(sorted.drop_last(), item, at);
        assert(sorted.insert(at, item) =~= sorted.drop_last().insert(at, item).push(
            sorted.last(),
        ));
    }
}

/// The sorted list is ascending and holds the same items.
pub proof fn lemma_stable_sorted<T>(items: Seq<(u16, T)>)
    ensures
        ascending(stable_sorted(items)),
        stable_sorted(items).to_multiset() == items.to_multiset(),
        stable_sorted(items).len() == items.len(),
    decreases items.len(),
{
    if items.len() > 0 {
        lemma_stable_sorted(items.drop_last());
        lemma_inserted_keeps(stable_sorted(items.drop_last()), items.last());
        assert(items =~= items.drop_last().push(items.last()));
        items.drop_last().to_multiset_ensures();
    }
}

proof fn lemma_inserted_keeps<T>(sorted: Seq<(u16, T)>, item: (u16, T))
    requires
        ascending(sorted),
    ensures
        ascending(inserted(sorted, item)),
        inserted(sorted, item).to_multiset() == sorted.to_multiset().insert(item),
        inserted(sorted, item).len() == sorted.len() + 1,
        forall|i: int|
            0 <= i < inserted(sorted, item).len() ==> (#[trigger] inserted(sorted, item)[i]).0 <= (
            if sorted.len() > 0 && sorted.last().0 > item.0 {
                sorted.last().0
            } else {
                item.0
            }),
    decreases sorted.len(),
{
    if sorted.len() == 0 || sorted.last().0 <= item.0 {
        sorted.to_multiset_ensures();
    } else {
        let front = sorted.drop_last();
        lemma_inserted_keeps(front, item);
        inserted(front, item).to_multiset_ensures();
        front.to_multiset_ensures();
        assert(sorted =~= front.push(sorted.last()));
        if front.len() > 0 {
            assert(front.last().0 <= sorted.last().0);
        }
        assert(inserted(sorted, item).to_multiset() =~= sorted.to_multiset().insert(item));
    }
}

pub fn sort_by_party<T>(items: Vec<(u16, T)>) -> (sorted: Vec<(u16, T)>)
    ensures
        sorted@ == stable_sorted(items@),
{
    let ghost all = items@;
    let mut rest = items;
    let mut sorted: Vec<(u16, T)> = Vec::new();
    let ghost mut taken: int = 0;
    assert(all.take(0) =~= Seq::<(u16, T)>::empty());
    assert(sorted@ =~= stable_sorted(all.take(0)));
    assert(all.skip(0) =~= all);
    while rest.len() > 0
        invariant
            0 <= taken <= all.len(),
            rest@ == all.skip(taken),
            sorted@ == stable_sorted(all.take(taken)),
        decreases rest@.len(),
    {
        let item = rest.remove(0);
        let ghost before = sorted@;
        let mut at: usize = sorted.len();
        while at > 0 && sorted[at - 1].0 > item.0
            invariant
                at <= sorted@.len(),
                forall|i: int| at <= i < sorted@.len() ==> (#[trigger] sorted@[i]).0 > item.0,
            decreases at,
        {
            at -= 1;
        }
        proof {
            lemma_inserted(before, item, at as int);
            assert(all.take(taken + 1).drop_last() =~= all.take(taken));
            assert(all.take(taken + 1).last() == all[taken]);
            assert(item == all[taken]);
        }
        sorted.insert(at, item);
        proof {
            assert(rest@ =~= all.skip(taken + 1));
            taken = taken + 1;
        }
    }
    assert(all.take(taken) =~= all);
    sorted
}

pub fn dedup_by_party<T>(items: Vec<(u16, T)>) -> (kept: Vec<(u16, T)>)
    ensures
        kept@ == first_of_each(items@),
{
    let ghost all = items@;
    let mut rest = items;
    let mut kept: Vec<(u16, T)> = Vec::new();
    let ghost mut taken: int = 0;
    let mut last: Option<u16> = None;
    assert(all.take(0) =~= Seq::<(u16, T)>::empty());
    assert(kept@ =~= first_of_each(all.take(0)));
    assert(all.skip(0) =~= all);
    while rest.len() > 0
        invariant
            0 <= taken <= all.len(),
            rest@ == all.skip(taken),
            kept@ == first_of_each(all.take(taken)),
            last == (if taken == 0 {
                None::<u16>
            } else {
                Some(all[taken - 1].0)
            }),
        decreases rest@.len(),
    {
        let item = rest.remove(0);
        let key: u16 = item.0;
        let repeated: bool = match last {
            Some(previous) => previous == key,
            None => false,
        };
        proof {
            let longer = all.take(taken + 1);
            assert(longer.drop_last() =~= all.take(taken));
            assert(longer.last() == all[taken]);
            if taken > 0 {
                assert(all.take(taken).last() == all[taken - 1]);
            } else {
                assert(longer =~= seq![all[0]]);
            }
            assert(item == all[taken]);
        }
        if !repeated {
            kept.push(item);
        }
        last = Some(key);
        proof {
            assert(rest@ =~= all.skip(taken + 1));
            taken = taken + 1;
            if taken == 1 {
                assert(kept@ =~= first_of_each(all.take(1)));
            }
        }
    }
    assert(all.take(taken) =~= all);
    kept
}

/// Of an ascending list, the first items of the runs have different keys.
pub proof fn lemma_first_of_each_distinct<T>(items: Seq<(u16, T)>)
    requires
        ascending(items),
    ensures
        forall|i: int, j: int|
            0 <= i < j < first_of_each(items).len() ==> first_of_each(items)[i].0 < first_of_each(
                items,
            )[j].0,
        items.len() > 0 ==> first_of_each(items).len() > 0 && first_of_each(items).last().0
            == items.last().0,
    decreases items.len(),
{
    if items.len() > 1 {
        let front = items.drop_last();
        lemma_first_of_each_distinct(front);
        assert(front.last().0 <= items.last().0);
        assert forall|i: int, j: int|
            0 <= i < j < first_of_each(items).len() implies first_of_each(items)[i].0
            < first_of_each(items)[j].0 by {
            if front.last().0 != items.last().0 && j == first_of_each(items).len() - 1 {
                let last = first_of_each(front).len() - 1;
                if i < last {
                    assert(first_of_each(front)[i].0 < first_of_each(front)[last].0);
                }
            }
        }
    }
}

} // verus!
