//! Putting timed items in order.

use vstd::prelude::*;

verus! {

/// An item that happens at a time.
pub trait HasTime: Sized {
    /// When it happens, in milliseconds.
    spec fn time(&self) -> u64;
}

/// An item that can tell when it happens.
pub trait Timed: HasTime {
    /// When it happens, in milliseconds.
    fn time_ms(&self) -> (t: u64)
        ensures
            t == self.time(),
    ;
}

/// The items with one more, which goes behind all that are not later than it.
pub open spec fn with_item<T: HasTime>(items: Seq<T>, item: T) -> Seq<T>
    decreases items.len(),
{
    if items.len() == 0 || items.last().time() <= item.time() {
        items.push(item)
    } else {
        with_item(items.drop_last(), item).push(items.last())
    }
}

/// The items in the order of their times; those of one time stay as they stand.
pub open spec fn by_time<T: HasTime>(items: Seq<T>) -> Seq<T>
    decreases items.len(),
{
    if items.len() == 0 {
        items
    } else {
        with_item(by_time(items.drop_last()), items.last())
    }
}

/// The items without those that have the time of the item kept before them.
pub open spec fn one_per_time<T: HasTime>(items: Seq<T>) -> Seq<T>
    decreases items.len(),
{
    if items.len() == 0 {
        items
    } else {
        let kept = one_per_time(items.drop_last());
        if kept.len() > 0 && kept.last().time() == items.last().time() {
            kept
        } else {
            kept.push(items.last())
        }
    }
}

/// No item is later than one that follows it.
pub open spec fn in_time_order<T: HasTime>(items: Seq<T>) -> bool {
    forall|i: int, j: int|
        0 <= i < j < items.len() ==> (#[trigger] items[i]).time() <= (#[trigger] items[j]).time()
}

/// Every item is earlier than those that follow it.
pub open spec fn in_strict_time_order<T: HasTime>(items: Seq<T>) -> bool {
    forall|i: int, j: int|
        0 <= i < j < items.len() ==> (#[trigger] items[i]).time() < (#[trigger] items[j]).time()
}

/// The items of one time, in the order in which they stand.
pub open spec fn at_time<T: HasTime>(items: Seq<T>, t: u64) -> Seq<T> {
    items.filter(|item: T| item.time() == t)
}

/// Two lists in one: from the end on the later of the two last items, and of
/// two that have one time that of the second list.
pub open spec fn merged<T: HasTime>(a: Seq<T>, b: Seq<T>) -> Seq<T>
    decreases a.len() + b.len(),
{
    if b.len() == 0 {
        a
    } else if a.len() == 0 {
        b
    } else if a.last().time() <= b.last().time() {
        merged(a, b.drop_last()).push(b.last())
    } else {
        merged(a.drop_last(), b).push(a.last())
    }
}

/// Puts two lists into one.
fn merge<T: Timed>(a: Vec<T>, b: Vec<T>) -> (all: Vec<T>)
    ensures
        all@ == merged(a@, b@),
{
    let ghost whole = merged(a@, b@);
    let mut a = a;
    let mut b = b;
    // The end of the whole, the last item first.
    let mut end: Vec<T> = Vec::new();
    assert(whole =~= merged(a@, b@) + end@.reverse());
    while a.len() > 0 && b.len() > 0
        invariant
            whole == merged(a@, b@) + end@.reverse(),
        decreases a@.len() + b@.len(),
    {
        let ghost so_far = end@;
        let ghost first = a@;
        let ghost second = b@;
        let next: Option<T> = if a[a.len() - 1].time_ms() <= b[b.len() - 1].time_ms() {
            b.pop()
        } else {
            a.pop()
        };
        if let Some(item) = next {
            assert(merged(first, second) == merged(a@, b@).push(item));
            end.push(item);
            assert(end@.reverse() =~= seq![item] + so_far.reverse());
            assert(whole =~= merged(a@, b@) + end@.reverse());
        }
    }
    let mut all = if b.len() == 0 {
        a
    } else {
        b
    };
    assert(whole == all@ + end@.reverse());
    while end.len() > 0
        invariant
            whole == all@ + end@.reverse(),
        decreases end@.len(),
    {
        let ghost left = end@;
        if let Some(item) = end.pop() {
            assert(left.reverse() =~= seq![item] + end@.reverse());
            all.push(item);
            assert(whole =~= all@ + end@.reverse());
        }
    }
    assert(whole =~= all@);
    all
}

/// Puts items in the order of their times.
pub fn sort_by_time<T: Timed>(items: Vec<T>) -> (sorted: Vec<T>)
    ensures
        sorted@ == by_time(items@),
    decreases items@.len(),
{
    let ghost all = items@;
    if items.len() < 2 {
        proof {
            reveal_with_fuel(by_time, 2);
            assert(by_time(all) =~= all);
        }
        return items;
    }
    let mut first = items;
    let middle: usize = first.len() / 2;
    let second = first.split_off(middle);
    proof {
        assert(all =~= first@ + second@);
        lemma_sorting_both(first@, second@);
    }
    merge(sort_by_time(first), sort_by_time(second))
}

/// To put an item into two lists in one is to put it into the second.
proof fn lemma_merged_with_item<T: HasTime>(a: Seq<T>, b: Seq<T>, item: T)
    ensures
        with_item(merged(a, b), item) == merged(a, with_item(b, item)),
    decreases a.len() + b.len(),
{
    let more = with_item(b, item);
    if b.len() == 0 || b.last().time() <= item.time() {
        assert(more.drop_last() =~= b);
        if a.len() > 0 && a.last().time() > item.time() {
            lemma_merged_with_item(a.drop_last(), b, item);
            assert(merged(a.drop_last(), b).push(a.last()).drop_last() =~= merged(
                a.drop_last(),
                b,
            ));
            if b.len() == 0 {
                assert(merged(a, b) =~= merged(a.drop_last(), b).push(a.last()));
            }
        } else if b.len() == 0 && a.len() == 0 {
            assert(merged(a, more) =~= more);
        }
    } else {
        assert(more.drop_last() =~= with_item(b.drop_last(), item));
        if a.len() > 0 {
            if a.last().time() <= b.last().time() {
                lemma_merged_with_item(a, b.drop_last(), item);
                assert(merged(a, b).drop_last() =~= merged(a, b.drop_last()));
            } else {
                lemma_merged_with_item(a.drop_last(), b, item);
                assert(merged(a, b).drop_last() =~= merged(a.drop_last(), b));
            }
        }
    }
}

/// To sort the items of two lists is to sort each and put them into one.
proof fn lemma_sorting_both<T: HasTime>(a: Seq<T>, b: Seq<T>)
    ensures
        by_time(a + b) == merged(by_time(a), by_time(b)),
    decreases b.len(),
{
    if b.len() == 0 {
        assert(a + b =~= a);
    } else {
        lemma_sorting_both(a, b.drop_last());
        assert((a + b).drop_last() =~= a + b.drop_last());
        lemma_merged_with_item(by_time(a), by_time(b.drop_last()), b.last());
    }
}

/// Drops the items that have the time of the item kept before them.
pub fn dedup_by_time<T: Timed>(items: Vec<T>) -> (kept: Vec<T>)
    ensures
        kept@ == one_per_time(items@),
{
    let ghost all = items@;
    let mut kept: Vec<T> = Vec::new();
    for item in it: items
        invariant
            it.seq() == all,
            kept@ == one_per_time(all.take(it.index())),
    {
        let ghost n = it.index();
        assert(all.take(n + 1).drop_last() =~= all.take(n));
        let n_kept: usize = kept.len();
        if n_kept == 0 || kept[n_kept - 1].time_ms() != item.time_ms() {
            kept.push(item);
        }
    }
    assert(all.take(all.len() as int) =~= all);
    kept
}

// ---------------------------------------------------------------------------
// Laws
// ---------------------------------------------------------------------------

/// One more item keeps the order, changes nothing else, and stands behind the
/// items of its time.
proof fn lemma_with_item<T: HasTime>(items: Seq<T>, item: T)
    requires
        in_time_order(items),
    ensures
        in_time_order(with_item(items, item)),
        with_item(items, item).len() == items.len() + 1,
        with_item(items, item).to_multiset() == items.to_multiset().insert(item),
        forall|x: T|
            #![trigger with_item(items, item).contains(x)]
            with_item(items, item).contains(x) ==> x == item || items.contains(x),
        forall|t: u64|
            #![trigger at_time(with_item(items, item), t)]
            at_time(with_item(items, item), t) == at_time(items.push(item), t),
    decreases items.len(),
{
    broadcast use vstd::seq_lib::group_to_multiset_ensures;

    let all = with_item(items, item);
    if items.len() == 0 || items.last().time() <= item.time() {
        assert forall|i: int, j: int| 0 <= i < j < all.len() implies (#[trigger] all[i]).time() <= (
        #[trigger] all[j]).time() by {
            if j == items.len() && i < items.len() - 1 {
                assert(items[i].time() <= items[items.len() - 1].time());
            }
        }
        assert forall|x: T| all.contains(x) implies x == item || items.contains(x) by {
            let i = choose|i: int| 0 <= i < all.len() && all[i] == x;
            if i < items.len() {
                assert(items[i] == x);
            }
        }
    } else {
        let front = items.drop_last();
        let last = items.last();
        assert(in_time_order(front));
        lemma_with_item(front, item);
        let rest = with_item(front, item);
        assert(items =~= front.push(last));
        assert(all == rest.push(last));
        assert forall|i: int, j: int| 0 <= i < j < all.len() implies (#[trigger] all[i]).time() <= (
        #[trigger] all[j]).time() by {
            if j == rest.len() {
                assert(rest.contains(rest[i]));
                if rest[i] != item {
                    let k = choose|k: int| 0 <= k < front.len() && front[k] == rest[i];
                    assert(items[k].time() <= items[items.len() - 1].time());
                }
            }
        }
        assert forall|x: T| all.contains(x) implies x == item || items.contains(x) by {
            let i = choose|i: int| 0 <= i < all.len() && all[i] == x;
            if i < rest.len() {
                assert(rest.contains(x));
                if x != item {
                    let k = choose|k: int| 0 <= k < front.len() && front[k] == x;
                    assert(items[k] == x);
                }
            } else {
                assert(items[items.len() - 1] == x);
            }
        }
        assert forall|t: u64| #![trigger at_time(all, t)] at_time(all, t) == at_time(items.push(item), t) by {
            lemma_at_time_push(rest, last, t);
            lemma_at_time_push(front, item, t);
            lemma_at_time_push(front, last, t);
            lemma_at_time_push(items, item, t);
            assert(at_time(rest, t) == at_time(front.push(item), t));
        }
    }
}

/// The items of one time, when one more item is put at the end.
pub proof fn lemma_at_time_push<T: HasTime>(items: Seq<T>, item: T, t: u64)
    ensures
        at_time(items.push(item), t) == (if item.time() == t {
            at_time(items, t).push(item)
        } else {
            at_time(items, t)
        }),
{
    reveal(Seq::filter);
    assert(items.push(item).drop_last() =~= items);
}

/// Sorting puts items in the order of their times, neither loses nor adds any,
/// and leaves those of one time in the order in which they stood.
pub proof fn law_sorting<T: HasTime>(items: Seq<T>)
    ensures
        in_time_order(by_time(items)),
        by_time(items).len() == items.len(),
        by_time(items).to_multiset() == items.to_multiset(),
        forall|t: u64| #[trigger] at_time(by_time(items), t) == at_time(items, t),
    decreases items.len(),
{
    broadcast use vstd::seq_lib::group_to_multiset_ensures;

    if items.len() > 0 {
        let front = items.drop_last();
        law_sorting(front);
        lemma_with_item(by_time(front), items.last());
        assert(items =~= front.push(items.last()));
        assert forall|t: u64| #[trigger] at_time(by_time(items), t) == at_time(items, t) by {
            lemma_at_time_push(by_time(front), items.last(), t);
            lemma_at_time_push(front, items.last(), t);
            assert(at_time(by_time(front), t) == at_time(front, t));
        }
    }
}

/// Of items in the order of their times, one of each time is kept: the first.
pub proof fn law_one_per_time<T: HasTime>(items: Seq<T>)
    requires
        in_time_order(items),
    ensures
        in_strict_time_order(one_per_time(items)),
        items.len() > 0 ==> one_per_time(items).len() > 0,
        items.len() > 0 ==> one_per_time(items).last().time() == items.last().time(),
        forall|t: u64|
            #![trigger at_time(items, t)]
            at_time(items, t).len() > 0 ==> one_per_time(items).contains(at_time(items, t)[0]),
    decreases items.len(),
{
    if items.len() > 0 {
        let front = items.drop_last();
        let last = items.last();
        assert(in_time_order(front));
        law_one_per_time(front);
        let kept = one_per_time(front);
        let all = one_per_time(items);
        assert(items =~= front.push(last));
        if front.len() > 0 {
            assert(items[items.len() - 2].time() <= items[items.len() - 1].time());
            assert(front.last() == items[items.len() - 2]);
        }
        assert forall|i: int, j: int| 0 <= i < j < all.len() implies (#[trigger] all[i]).time() < (
        #[trigger] all[j]).time() by {
            if j == kept.len() && i < kept.len() - 1 {
                assert(kept[i].time() < kept[kept.len() - 1].time());
            }
        }
        assert forall|t: u64| #![trigger at_time(items, t)] at_time(items, t).len() > 0 implies all.contains(
            at_time(items, t)[0],
        ) by {
            lemma_at_time_push(front, last, t);
            if at_time(front, t).len() > 0 {
                assert(kept.contains(at_time(front, t)[0]));
                let k = choose|k: int| 0 <= k < kept.len() && kept[k] == at_time(front, t)[0];
                assert(all[k] == at_time(front, t)[0]);
            } else {
                assert(at_time(items, t) =~= seq![last]);
                if kept.len() > 0 && kept.last().time() == last.time() {
                    assert(front.last().time() == t);
                    lemma_at_time_push(front.drop_last(), front.last(), t);
                    assert(front =~= front.drop_last().push(front.last()));
                } else {
                    assert(all[all.len() - 1] == last);
                }
            }
        }
    }
}

/// To sort items and then change them is to change them and then sort, as long
/// as the change keeps the times.
pub proof fn lemma_sorting_changed_items<A: HasTime, B: HasTime>(
    items: Seq<A>,
    change: spec_fn(A) -> B,
)
    requires
        forall|a: A| (#[trigger] change(a)).time() == a.time(),
    ensures
        by_time(items).map_values(change) == by_time(items.map_values(change)),
    decreases items.len(),
{
    if items.len() > 0 {
        let front = items.drop_last();
        lemma_sorting_changed_items(front, change);
        lemma_adding_changed_item(by_time(front), items.last(), change);
        assert(items.map_values(change).drop_last() =~= front.map_values(change));
    } else {
        assert(items.map_values(change) =~= Seq::<B>::empty());
        assert(by_time(items).map_values(change) =~= Seq::<B>::empty());
    }
}

/// To add an item and then change all is to change all and then add.
proof fn lemma_adding_changed_item<A: HasTime, B: HasTime>(
    items: Seq<A>,
    item: A,
    change: spec_fn(A) -> B,
)
    requires
        forall|a: A| (#[trigger] change(a)).time() == a.time(),
    ensures
        with_item(items, item).map_values(change) == with_item(
            items.map_values(change),
            change(item),
        ),
    decreases items.len(),
{
    let changed = items.map_values(change);
    if items.len() == 0 || items.last().time() <= item.time() {
        assert(items.push(item).map_values(change) =~= changed.push(change(item)));
    } else {
        let front = items.drop_last();
        lemma_adding_changed_item(front, item, change);
        assert(changed.drop_last() =~= front.map_values(change));
        assert(with_item(front, item).push(items.last()).map_values(change) =~= with_item(
            front,
            item,
        ).map_values(change).push(change(items.last())));
    }
}

} // verus!
