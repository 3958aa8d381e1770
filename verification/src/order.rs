//! The order of the items of the table: as the model has them, or by
//! ascending transport-stream identifier.

use crate::model::views;
use crate::table::{TableItem, TableItemView};
use vstd::prelude::*;
use vstd::seq_lib::{to_multiset_build, to_multiset_insert};

verus! {

/// The order of the items of the table.
#[derive(Debug, Clone, Copy, PartialEq, Eq, Structural)]
pub enum ItemOrder {
    /// The order of the multiplexes in the model.
    Insertion,
    /// Ascending transport-stream identifiers; items with the same
    /// identifier stay in the order of the model.
    Tsid,
}

/// `sorted`, with `item` put behind the last item whose transport-stream
/// identifier is not above its own.
pub open spec fn insert_by_tsid(sorted: Seq<TableItemView>, item: TableItemView) -> Seq<
    TableItemView,
>
    decreases sorted.len(),
{
    if sorted.len() > 0 && sorted.last().tsid > item.tsid {
        insert_by_tsid(sorted.drop_last(), item).push(sorted.last())
    } else {
        sorted.push(item)
    }
}

/// `items` by ascending transport-stream identifier, items with the same
/// identifier in their old order.
pub open spec fn sort_by_tsid(items: Seq<TableItemView>) -> Seq<TableItemView>
    decreases items.len(),
{
    if items.len() == 0 {
        items
    } else {
        insert_by_tsid(sort_by_tsid(items.drop_last()), items.last())
    }
}

/// `items` in the order that `order` names.
pub open spec fn ordered(items: Seq<TableItemView>, order: ItemOrder) -> Seq<TableItemView> {
    match order {
        ItemOrder::Insertion => items,
        ItemOrder::Tsid => sort_by_tsid(items),
    }
}

/// Whether the transport-stream identifiers of `items` never descend.
pub open spec fn ascending(items: Seq<TableItemView>) -> bool {
    forall|i: int, j: int| 0 <= i <= j < items.len() ==> items[i].tsid <= items[j].tsid
}

/// The items of `items` with the transport-stream identifier `tsid`, in order.
pub open spec fn with_tsid(items: Seq<TableItemView>, tsid: u16) -> Seq<TableItemView> {
    items.filter(|item: TableItemView| item.tsid == tsid)
}

/// Where `insert_by_tsid` puts an item: before the items above it that end
/// the sequence.
pub proof fn lemma_insert_position(sorted: Seq<TableItemView>, item: TableItemView, at: int)
    requires
        0 <= at <= sorted.len(),
        forall|k: int| at <= k < sorted.len() ==> sorted[k].tsid > item.tsid,
        at > 0 ==> sorted[at - 1].tsid <= item.tsid,
    ensures
        insert_by_tsid(sorted, item) == sorted.insert(at, item),
    decreases sorted.len() - at,
{
    if at < sorted.len() {
        lemma_insert_position(sorted.drop_last(), item, at);
        assert(sorted.drop_last().insert(at, item).push(sorted.last()) =~= sorted.insert(
            at,
            item,
        ));
    } else {
        assert(sorted.push(item) =~= sorted.insert(at, item));
    }
}

/// The index at which `insert_by_tsid` puts an item.
pub open spec fn insert_index(sorted: Seq<TableItemView>, item: TableItemView) -> int
    decreases sorted.len(),
{
    if sorted.len() > 0 && sorted.last().tsid > item.tsid {
        insert_index(sorted.drop_last(), item)
    } else {
        sorted.len() as int
    }
}

/// In a sequence that ascends, `insert_by_tsid` puts an item behind all
/// items that are not above it and before all that are.
pub proof fn lemma_insert_index(sorted: Seq<TableItemView>, item: TableItemView)
    requires
        ascending(sorted),
    ensures
        0 <= insert_index(sorted, item) <= sorted.len(),
        insert_by_tsid(sorted, item) == sorted.insert(insert_index(sorted, item), item),
        forall|k: int|
            0 <= k < insert_index(sorted, item) ==> (#[trigger] sorted[k]).tsid <= item.tsid,
        forall|k: int|
            insert_index(sorted, item) <= k < sorted.len() ==> (#[trigger] sorted[k]).tsid
                > item.tsid,
    decreases sorted.len(),
{
    if sorted.len() > 0 && sorted.last().tsid > item.tsid {
        let rest = sorted.drop_last();
        assert(ascending(rest)) by {
            assert forall|i: int, j: int| 0 <= i <= j < rest.len() implies rest[i].tsid
                <= rest[j].tsid by {
                assert(sorted[i].tsid <= sorted[j].tsid);
            }
        }
        lemma_insert_index(rest, item);
        let at = insert_index(rest, item);
        assert(rest.insert(at, item).push(sorted.last()) =~= sorted.insert(at, item));
        assert forall|k: int| 0 <= k < at implies (#[trigger] sorted[k]).tsid <= item.tsid by {
            assert(sorted[k] == rest[k]);
        }
        assert forall|k: int| at <= k < sorted.len() implies (#[trigger] sorted[k]).tsid
            > item.tsid by {
            if k < rest.len() {
                assert(sorted[k] == rest[k]);
            }
        }
    } else {
        assert(sorted.push(item) =~= sorted.insert(sorted.len() as int, item));
        assert forall|k: int| 0 <= k < sorted.len() implies (#[trigger] sorted[k]).tsid
            <= item.tsid by {
            assert(sorted[k].tsid <= sorted[sorted.len() - 1].tsid);
        }
    }
}

/// Sorting keeps the number of items, and what it yields ascends.
pub proof fn lemma_sort_ascending(items: Seq<TableItemView>)
    ensures
        sort_by_tsid(items).len() == items.len(),
        ascending(sort_by_tsid(items)),
    decreases items.len(),
{
    if items.len() > 0 {
        let before = sort_by_tsid(items.drop_last());
        lemma_sort_ascending(items.drop_last());
        lemma_insert_index(before, items.last());
    }
}

/// Sorting is stable: the items with one transport-stream identifier are the
/// same before and after, in the same order.
pub proof fn lemma_sort_stable(items: Seq<TableItemView>, tsid: u16)
    ensures
        with_tsid(sort_by_tsid(items), tsid) == with_tsid(items, tsid),
    decreases items.len(),
{
    if items.len() > 0 {
        let same = |item: TableItemView| item.tsid == tsid;
        let last = items.last();
        let before = sort_by_tsid(items.drop_last());
        lemma_sort_stable(items.drop_last(), tsid);
        lemma_sort_ascending(items.drop_last());
        lemma_insert_index(before, last);
        let at = insert_index(before, last);
        let head = before.take(at);
        let tail = before.skip(at);
        assert(before == head + tail);
        assert(before.insert(at, last) =~= head + seq![last] + tail);
        Seq::filter_distributes_over_add(head, tail, same);
        Seq::filter_distributes_over_add(head + seq![last], tail, same);
        Seq::filter_distributes_over_add(head, seq![last], same);
        assert(items == items.drop_last().push(last));
        items.drop_last().lemma_filter_push(last, same);
        assert(seq![last].filter(same) == if same(last) {
            seq![last]
        } else {
            Seq::empty()
        }) by {
            reveal(Seq::filter);
            assert(seq![last].drop_last() =~= Seq::<TableItemView>::empty());
            assert(seq![last].drop_last().filter(same) =~= Seq::<TableItemView>::empty());
        }
        if same(last) {
            assert(tail.filter(same) =~= Seq::empty()) by {
                tail.lemma_filter_len(same);
                if tail.filter(same).len() > 0 {
                    tail.lemma_filter_pred(same, 0);
                    let found = tail.filter(same)[0];
                    assert(tail.filter(same).contains(found));
                    tail.lemma_filter_contains_rev(same, found);
                    let k = choose|k: int| 0 <= k < tail.len() && tail[k] == found;
                    assert(before[at + k].tsid > last.tsid);
                }
            }
            assert(head.filter(same) + seq![last] + Seq::empty() =~= (head.filter(same)
                + Seq::empty()).push(last));
        } else {
            assert(head.filter(same) + Seq::empty() + tail.filter(same) =~= head.filter(same)
                + tail.filter(same));
        }
    }
}

/// Sorting permutes: what it yields holds the same items, each as often.
pub proof fn lemma_sort_permutes(items: Seq<TableItemView>)
    ensures
        sort_by_tsid(items).to_multiset() == items.to_multiset(),
    decreases items.len(),
{
    if items.len() > 0 {
        let last = items.last();
        let before = sort_by_tsid(items.drop_last());
        lemma_sort_permutes(items.drop_last());
        lemma_sort_ascending(items.drop_last());
        lemma_insert_index(before, last);
        to_multiset_insert(before, insert_index(before, last), last);
        to_multiset_build(items.drop_last(), last);
        assert(items == items.drop_last().push(last));
    }
}

/// An element of a sequence that ascends is not above the last.
proof fn lemma_last_is_greatest(items: Seq<TableItemView>, item: TableItemView)
    requires
        ascending(items),
        items.contains(item),
    ensures
        item.tsid <= items.last().tsid,
{
    let k = choose|k: int| 0 <= k < items.len() && items[k] == item;
    assert(items[k].tsid <= items[items.len() - 1].tsid);
}

/// Two sequences that ascend and hold, for every transport-stream
/// identifier, the same items in the same order are the same sequence.
pub proof fn lemma_stable_order_is_unique(a: Seq<TableItemView>, b: Seq<TableItemView>)
    requires
        ascending(a),
        ascending(b),
        forall|tsid: u16| with_tsid(a, tsid) == with_tsid(b, tsid),
    ensures
        a == b,
    decreases a.len(),
{
    if a.len() == 0 {
        if b.len() > 0 {
            let tsid = b[0].tsid;
            let same = |item: TableItemView| item.tsid == tsid;
            b.lemma_filter_contains(same, 0);
            assert(with_tsid(a, tsid) =~= Seq::empty()) by {
                a.lemma_filter_len(same);
            }
            assert(with_tsid(b, tsid).len() > 0);
        }
        assert(a =~= b);
    } else {
        let x = a.last();
        let same_x = |item: TableItemView| item.tsid == x.tsid;
        assert(a == a.drop_last().push(x));
        a.drop_last().lemma_filter_push(x, same_x);
        assert(with_tsid(a, x.tsid).last() == x);
        assert(with_tsid(b, x.tsid).len() > 0);
        if b.len() == 0 {
            b.lemma_filter_len(same_x);
        }
        let y = b.last();
        let same_y = |item: TableItemView| item.tsid == y.tsid;
        assert(b == b.drop_last().push(y));
        b.drop_last().lemma_filter_push(y, same_y);
        assert(with_tsid(b, y.tsid).last() == y);
        // The last items have the same identifier: each is found in the other sequence.
        let in_a = with_tsid(a, y.tsid).last();
        assert(with_tsid(a, y.tsid).contains(in_a));
        a.lemma_filter_contains_rev(same_y, in_a);
        a.lemma_filter_pred(same_y, with_tsid(a, y.tsid).len() - 1);
        lemma_last_is_greatest(a, in_a);
        let in_b = with_tsid(b, x.tsid).last();
        assert(with_tsid(b, x.tsid).contains(in_b));
        b.lemma_filter_contains_rev(same_x, in_b);
        b.lemma_filter_pred(same_x, with_tsid(b, x.tsid).len() - 1);
        lemma_last_is_greatest(b, in_b);
        assert(x.tsid == y.tsid);
        assert(x == y);
        let rest_a = a.drop_last();
        let rest_b = b.drop_last();
        assert(ascending(rest_a)) by {
            assert forall|i: int, j: int| 0 <= i <= j < rest_a.len() implies rest_a[i].tsid
                <= rest_a[j].tsid by {
                assert(a[i].tsid <= a[j].tsid);
            }
        }
        assert(ascending(rest_b)) by {
            assert forall|i: int, j: int| 0 <= i <= j < rest_b.len() implies rest_b[i].tsid
                <= rest_b[j].tsid by {
                assert(b[i].tsid <= b[j].tsid);
            }
        }
        assert forall|tsid: u16| with_tsid(rest_a, tsid) == with_tsid(rest_b, tsid) by {
            let same = |item: TableItemView| item.tsid == tsid;
            rest_a.lemma_filter_push(x, same);
            rest_b.lemma_filter_push(y, same);
            assert(with_tsid(a, tsid) == with_tsid(b, tsid));
            if tsid == x.tsid {
                assert(with_tsid(rest_a, tsid) == with_tsid(a, tsid).drop_last());
                assert(with_tsid(rest_b, tsid) == with_tsid(b, tsid).drop_last());
            }
        }
        lemma_stable_order_is_unique(rest_a, rest_b);
    }
}

/// What the order by transport-stream identifier is: the one sequence
/// that ascends and holds, for every identifier, the items of `items` with
/// that identifier in their order.
pub proof fn lemma_sort_is_the_stable_order(items: Seq<TableItemView>, other: Seq<TableItemView>)
    requires
        ascending(other),
        forall|tsid: u16| with_tsid(other, tsid) == with_tsid(items, tsid),
    ensures
        other == sort_by_tsid(items),
{
    lemma_sort_ascending(items);
    assert forall|tsid: u16| with_tsid(sort_by_tsid(items), tsid) == with_tsid(other, tsid) by {
        lemma_sort_stable(items, tsid);
    }
    lemma_stable_order_is_unique(sort_by_tsid(items), other);
}

/// Puts `item` into `items`, which ascend, behind the last item whose
/// transport-stream identifier is not above its own.
fn insert_item(items: &mut Vec<TableItem>, item: TableItem)
    ensures
        views(final(items)@) == insert_by_tsid(views(old(items)@), item@),
{
    let mut at: usize = items.len();
    while at > 0 && items[at - 1].tsid > item.tsid
        invariant
            at <= items.len(),
            forall|k: int| at <= k < items.len() ==> items@[k].tsid > item.tsid,
        decreases at,
    {
        at -= 1;
    }
    proof {
        lemma_insert_position(views(items@), item@, at as int);
        assert(views(items@.insert(at as int, item)) =~= views(items@).insert(at as int, item@));
    }
    items.insert(at, item);
}

/// Sorts `items` by ascending transport-stream identifier, stably.
pub fn sort_items(items: Vec<TableItem>) -> (sorted: Vec<TableItem>)
    ensures
        views(sorted@) == sort_by_tsid(views(items@)),
{
    let mut sorted: Vec<TableItem> = Vec::new();
    let ghost all = views(items@);
    assert(all.take(0) =~= Seq::empty());
    for item in it: items
        invariant
            all == views(it.seq()),
            views(sorted@) == sort_by_tsid(all.take(it.index() as int)),
    {
        proof {
            let upto = all.take(it.index() + 1);
            assert(upto.drop_last() == all.take(it.index() as int));
            assert(upto.last() == item@);
        }
        insert_item(&mut sorted, item);
    }
    assert(all.take(all.len() as int) == all);
    sorted
}

} // verus!
