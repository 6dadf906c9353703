//! Decoding of the stored form of one side of a book: price levels kept in
//! an array of nodes, some of them marked as removed, each with a queue of
//! orders.

use crate::fields::{
    all_known, array_items, check_known, deserialize_from_str, field, field_u64, get_field,
    get_u64, object_members, read_array, read_object, Schema, text_u64,
};
use crate::json::{DecodeError, Json};
use crate::order::{Order, orders_view, OrderView};
use crate::queue::{OrderQueue, OrderQueueView, queue_orders, QueueEntry, QueueEntryView};
use vstd::prelude::*;

verus! {

/// The orders that the items denote, in their order; the first item at fault
/// decides the error.
pub open spec fn orders_of(items: Seq<Json>) -> Result<Seq<OrderView>, DecodeError>
    decreases items.len(),
{
    if items.len() == 0 {
        Ok(Seq::empty())
    } else {
        match orders_of(items.drop_last()) {
            Err(e) => Err(e),
            Ok(front) => match Order::of_json(items.last()) {
                Err(e) => Err(e),
                Ok(o) => Ok(front.push(o)),
            },
        }
    }
}

/// The pointer that an object with the entry `value` denotes.
pub open spec fn pointer_of(j: Json) -> Result<u64, DecodeError> {
    match object_members(j) {
        Err(e) => Err(e),
        Ok(m) => field_u64(m, "value"@),
    }
}

/// The orders of the container that an object with the entry `vec` denotes.
pub open spec fn slot_of(j: Json) -> Result<Seq<OrderView>, DecodeError> {
    match object_members(j) {
        Err(e) => Err(e),
        Ok(m) => match field(m, "vec"@) {
            Err(e) => Err(e),
            Ok(v) => match array_items(v) {
                Err(e) => Err(e),
                Ok(items) => orders_of(items),
            },
        },
    }
}

/// The queue entry that an object with the entries `next` and `value`
/// denotes.
pub open spec fn entry_of(j: Json) -> Result<QueueEntryView, DecodeError> {
    let members = object_members(j);
    if members is Err {
        Err(members->Err_0)
    } else {
        let next = field(members->Ok_0, "next"@);
        let value = field(members->Ok_0, "value"@);
        if next is Err {
            Err(next->Err_0)
        } else if pointer_of(next->Ok_0) is Err {
            Err(pointer_of(next->Ok_0)->Err_0)
        } else if value is Err {
            Err(value->Err_0)
        } else if slot_of(value->Ok_0) is Err {
            Err(slot_of(value->Ok_0)->Err_0)
        } else {
            Ok(
                QueueEntryView {
                    next: pointer_of(next->Ok_0)->Ok_0,
                    orders: slot_of(value->Ok_0)->Ok_0,
                },
            )
        }
    }
}

/// The queue entries that the items denote, in their order; the first item
/// at fault decides the error.
pub open spec fn entries_of(items: Seq<Json>) -> Result<Seq<QueueEntryView>, DecodeError>
    decreases items.len(),
{
    if items.len() == 0 {
        Ok(Seq::empty())
    } else {
        match entries_of(items.drop_last()) {
            Err(e) => Err(e),
            Ok(front) => match entry_of(items.last()) {
                Err(e) => Err(e),
                Ok(entry) => Ok(front.push(entry)),
            },
        }
    }
}

/// The stored queue that an object with the entries `head` and `nodes`
/// denotes.
pub open spec fn queue_of(j: Json) -> Result<OrderQueueView, DecodeError> {
    let members = object_members(j);
    if members is Err {
        Err(members->Err_0)
    } else {
        let head = field(members->Ok_0, "head"@);
        let nodes = field(members->Ok_0, "nodes"@);
        if head is Err {
            Err(head->Err_0)
        } else if pointer_of(head->Ok_0) is Err {
            Err(pointer_of(head->Ok_0)->Err_0)
        } else if nodes is Err {
            Err(nodes->Err_0)
        } else if array_items(nodes->Ok_0) is Err {
            Err(array_items(nodes->Ok_0)->Err_0)
        } else if entries_of(array_items(nodes->Ok_0)->Ok_0) is Err {
            Err(entries_of(array_items(nodes->Ok_0)->Ok_0)->Err_0)
        } else {
            Ok(
                OrderQueueView {
                    head: pointer_of(head->Ok_0)->Ok_0,
                    entries: entries_of(array_items(nodes->Ok_0)->Ok_0)->Ok_0,
                },
            )
        }
    }
}

/// Reads a queue pointer.
pub fn read_pointer(j: &Json) -> (r: Result<u64, DecodeError>)
    ensures
        r == pointer_of(*j),
{
    let m = read_object(j)?;
    get_u64(m, "value")
}

/// Reads the orders of a list of values.
pub fn read_orders(items: &Vec<Json>) -> (r: Result<Vec<Order>, DecodeError>)
    ensures
        match r {
            Ok(orders) => orders_of(items@) == Ok::<Seq<OrderView>, DecodeError>(
                orders_view(orders@),
            ),
            Err(e) => orders_of(items@) == Err::<Seq<OrderView>, DecodeError>(e),
        },
{
    let mut out: Vec<Order> = Vec::new();
    let mut i: usize = 0;
    assert(items@.subrange(0, 0) =~= Seq::<Json>::empty());
    assert(orders_view(out@) =~= Seq::<OrderView>::empty());
    while i < items.len()
        invariant
            0 <= i <= items@.len(),
            orders_of(items@.subrange(0, i as int)) == Ok::<Seq<OrderView>, DecodeError>(
                orders_view(out@),
            ),
        decreases items@.len() - i,
    {
        let ghost before = orders_view(out@);
        let ghost next = items@.subrange(0, i + 1);
        proof {
            assert(next.drop_last() =~= items@.subrange(0, i as int));
            assert(next.last() == items@[i as int]);
        }
        match Order::from_json(&items[i]) {
            Err(e) => {
                proof {
                    lemma_orders_fault_stays(items@, i + 1);
                }
                return Err(e);
            },
            Ok(o) => {
                out.push(o);
                assert(orders_view(out@) =~= before.push(o@));
            },
        }
        i = i + 1;
    }
    assert(items@.subrange(0, items@.len() as int) =~= items@);
    Ok(out)
}

/// A fault among the first `k` items is the fault of the whole list.
pub proof fn lemma_orders_fault_stays(items: Seq<Json>, k: int)
    requires
        0 <= k <= items.len(),
        orders_of(items.subrange(0, k)) is Err,
    ensures
        orders_of(items) == orders_of(items.subrange(0, k)),
    decreases items.len() - k,
{
    if k == items.len() {
        assert(items.subrange(0, k) =~= items);
    } else {
        let longer = items.subrange(0, k + 1);
        assert(longer.drop_last() =~= items.subrange(0, k));
        lemma_orders_fault_stays(items, k + 1);
    }
}

/// Reads the container of a queue entry.
pub fn read_slot(j: &Json) -> (r: Result<Vec<Order>, DecodeError>)
    ensures
        match r {
            Ok(orders) => slot_of(*j) == Ok::<Seq<OrderView>, DecodeError>(orders_view(orders@)),
            Err(e) => slot_of(*j) == Err::<Seq<OrderView>, DecodeError>(e),
        },
{
    let m = read_object(j)?;
    let v = get_field(m, "vec")?;
    let items = read_array(v)?;
    read_orders(items)
}

/// Reads a queue entry.
pub fn read_entry(j: &Json) -> (r: Result<QueueEntry, DecodeError>)
    ensures
        match r {
            Ok(entry) => entry_of(*j) == Ok::<QueueEntryView, DecodeError>(entry@),
            Err(e) => entry_of(*j) == Err::<QueueEntryView, DecodeError>(e),
        },
{
    let m = read_object(j)?;
    let next = read_pointer(get_field(m, "next")?)?;
    let orders = read_slot(get_field(m, "value")?)?;
    Ok(QueueEntry { next, orders })
}

/// A fault among the first `k` items is the fault of the whole list.
pub proof fn lemma_entries_fault_stays(items: Seq<Json>, k: int)
    requires
        0 <= k <= items.len(),
        entries_of(items.subrange(0, k)) is Err,
    ensures
        entries_of(items) == entries_of(items.subrange(0, k)),
    decreases items.len() - k,
{
    if k == items.len() {
        assert(items.subrange(0, k) =~= items);
    } else {
        let longer = items.subrange(0, k + 1);
        assert(longer.drop_last() =~= items.subrange(0, k));
        lemma_entries_fault_stays(items, k + 1);
    }
}

/// Reads the entries of a queue.
pub fn read_entries(items: &Vec<Json>) -> (r: Result<Vec<QueueEntry>, DecodeError>)
    ensures
        match r {
            Ok(entries) => entries_of(items@) == Ok::<Seq<QueueEntryView>, DecodeError>(
                entries@.map_values(|e: QueueEntry| e@),
            ),
            Err(e) => entries_of(items@) == Err::<Seq<QueueEntryView>, DecodeError>(e),
        },
{
    let mut out: Vec<QueueEntry> = Vec::new();
    let mut i: usize = 0;
    assert(items@.subrange(0, 0) =~= Seq::<Json>::empty());
    assert(out@.map_values(|e: QueueEntry| e@) =~= Seq::<QueueEntryView>::empty());
    while i < items.len()
        invariant
            0 <= i <= items@.len(),
            entries_of(items@.subrange(0, i as int)) == Ok::<Seq<QueueEntryView>, DecodeError>(
                out@.map_values(|e: QueueEntry| e@),
            ),
        decreases items@.len() - i,
    {
        let ghost before = out@.map_values(|e: QueueEntry| e@);
        let ghost next = items@.subrange(0, i + 1);
        proof {
            assert(next.drop_last() =~= items@.subrange(0, i as int));
            assert(next.last() == items@[i as int]);
        }
        match read_entry(&items[i]) {
            Err(e) => {
                proof {
                    lemma_entries_fault_stays(items@, i + 1);
                }
                return Err(e);
            },
            Ok(entry) => {
                out.push(entry);
                assert(out@.map_values(|e: QueueEntry| e@) =~= before.push(entry@));
            },
        }
        i = i + 1;
    }
    assert(items@.subrange(0, items@.len() as int) =~= items@);
    Ok(out)
}

/// Reads a stored queue.
pub fn read_queue(j: &Json) -> (r: Result<OrderQueue, DecodeError>)
    ensures
        match r {
            Ok(q) => queue_of(*j) == Ok::<OrderQueueView, DecodeError>(q@),
            Err(e) => queue_of(*j) == Err::<OrderQueueView, DecodeError>(e),
        },
{
    let m = read_object(j)?;
    let head = read_pointer(get_field(m, "head")?)?;
    let nodes = read_array(get_field(m, "nodes")?)?;
    let entries = read_entries(nodes)?;
    Ok(OrderQueue { head, entries })
}

/// One price level of a book side: its price and its orders, oldest first.
#[derive(Debug)]
pub struct PriceLevel {
    pub price: u64,
    pub orders: Vec<Order>,
}

/// What a price level holds, as a mathematical value.
pub struct PriceLevelView {
    pub price: u64,
    pub orders: Seq<OrderView>,
}

impl View for PriceLevel {
    type V = PriceLevelView;

    open spec fn view(&self) -> PriceLevelView {
        PriceLevelView { price: self.price, orders: orders_view(self.orders@) }
    }
}

/// What a list of price levels holds, in its order.
pub open spec fn levels_view(levels: Seq<PriceLevel>) -> Seq<PriceLevelView> {
    levels.map_values(|l: PriceLevel| l@)
}

/// The price level that a node denotes: an object of the entries `key`,
/// `value`, `left` and `right` and no others, whose `key` is the price as a
/// decimal string and whose `value` is the stored queue. Of several faults
/// the first in this order decides the error: the kind of the value, an
/// unknown entry, the key, the queue's form, and the way through the queue.
pub open spec fn level_of(j: Json) -> Result<PriceLevelView, DecodeError> {
    let members = object_members(j);
    if members is Err {
        Err(members->Err_0)
    } else if !all_known(members->Ok_0, Schema::PriceLevel) {
        Err(DecodeError::UnknownField)
    } else {
        let key = field(members->Ok_0, "key"@);
        let value = field(members->Ok_0, "value"@);
        if key is Err {
            Err(key->Err_0)
        } else if text_u64(key->Ok_0) is Err {
            Err(text_u64(key->Ok_0)->Err_0)
        } else if value is Err {
            Err(value->Err_0)
        } else if queue_of(value->Ok_0) is Err {
            Err(queue_of(value->Ok_0)->Err_0)
        } else if queue_orders(queue_of(value->Ok_0)->Ok_0) is Err {
            Err(queue_orders(queue_of(value->Ok_0)->Ok_0)->Err_0)
        } else {
            Ok(
                PriceLevelView {
                    price: text_u64(key->Ok_0)->Ok_0,
                    orders: queue_orders(queue_of(value->Ok_0)->Ok_0)->Ok_0,
                },
            )
        }
    }
}

/// Reads one price level.
pub fn read_level(j: &Json) -> (r: Result<PriceLevel, DecodeError>)
    ensures
        match r {
            Ok(level) => level_of(*j) == Ok::<PriceLevelView, DecodeError>(level@),
            Err(e) => level_of(*j) == Err::<PriceLevelView, DecodeError>(e),
        },
{
    let m = read_object(j)?;
    if !check_known(m, Schema::PriceLevel) {
        return Err(DecodeError::UnknownField);
    }
    let price = deserialize_from_str(get_field(m, "key")?)?;
    let queue = read_queue(get_field(m, "value")?)?;
    let orders = queue.resolve()?;
    Ok(PriceLevel { price, orders })
}

/// The node positions that the items denote, each a decimal string; the
/// first item at fault decides the error.
pub open spec fn tombstones_of(items: Seq<Json>) -> Result<Seq<u64>, DecodeError>
    decreases items.len(),
{
    if items.len() == 0 {
        Ok(Seq::empty())
    } else {
        match tombstones_of(items.drop_last()) {
            Err(e) => Err(e),
            Ok(front) => match text_u64(items.last()) {
                Err(e) => Err(e),
                Ok(v) => Ok(front.push(v)),
            },
        }
    }
}

/// A fault among the first `k` items is the fault of the whole list.
pub proof fn lemma_tombstones_fault_stays(items: Seq<Json>, k: int)
    requires
        0 <= k <= items.len(),
        tombstones_of(items.subrange(0, k)) is Err,
    ensures
        tombstones_of(items) == tombstones_of(items.subrange(0, k)),
    decreases items.len() - k,
{
    if k == items.len() {
        assert(items.subrange(0, k) =~= items);
    } else {
        let longer = items.subrange(0, k + 1);
        assert(longer.drop_last() =~= items.subrange(0, k));
        lemma_tombstones_fault_stays(items, k + 1);
    }
}

/// Reads the positions of the removed nodes.
pub fn read_tombstones(items: &Vec<Json>) -> (r: Result<Vec<u64>, DecodeError>)
    ensures
        match r {
            Ok(marks) => tombstones_of(items@) == Ok::<Seq<u64>, DecodeError>(marks@),
            Err(e) => tombstones_of(items@) == Err::<Seq<u64>, DecodeError>(e),
        },
{
    let mut out: Vec<u64> = Vec::new();
    let mut i: usize = 0;
    assert(items@.subrange(0, 0) =~= Seq::<Json>::empty());
    while i < items.len()
        invariant
            0 <= i <= items@.len(),
            tombstones_of(items@.subrange(0, i as int)) == Ok::<Seq<u64>, DecodeError>(out@),
        decreases items@.len() - i,
    {
        let ghost next = items@.subrange(0, i + 1);
        proof {
            assert(next.drop_last() =~= items@.subrange(0, i as int));
            assert(next.last() == items@[i as int]);
        }
        match deserialize_from_str(&items[i]) {
            Err(e) => {
                proof {
                    lemma_tombstones_fault_stays(items@, i + 1);
                }
                return Err(e);
            },
            Ok(v) => {
                out.push(v);
            },
        }
        i = i + 1;
    }
    assert(items@.subrange(0, items@.len() as int) =~= items@);
    Ok(out)
}

/// Whether the node at position `i` is marked as removed.
pub open spec fn is_removed(removed: Seq<u64>, i: int) -> bool {
    exists|k: int| 0 <= k < removed.len() && #[trigger] removed[k] == i
}

/// Tells whether the node at position `i` is marked as removed.
pub fn marks(removed: &Vec<u64>, i: usize) -> (r: bool)
    ensures
        r == is_removed(removed@, i as int),
{
    let mut k: usize = 0;
    while k < removed.len()
        invariant
            0 <= k <= removed@.len(),
            forall|m: int| 0 <= m < k ==> #[trigger] removed@[m] != i,
        decreases removed@.len() - k,
    {
        if removed[k] == i as u64 {
            return true;
        }
        k = k + 1;
    }
    false
}

/// The price levels of the nodes that are not marked as removed, in the
/// order of the nodes. A removed node is passed over unread; of the others
/// the first at fault decides the error.
pub open spec fn live_levels(nodes: Seq<Json>, removed: Seq<u64>) -> Result<
    Seq<PriceLevelView>,
    DecodeError,
>
    decreases nodes.len(),
{
    if nodes.len() == 0 {
        Ok(Seq::empty())
    } else {
        match live_levels(nodes.drop_last(), removed) {
            Err(e) => Err(e),
            Ok(front) => if is_removed(removed, nodes.len() - 1) {
                Ok(front)
            } else {
                match level_of(nodes.last()) {
                    Err(e) => Err(e),
                    Ok(level) => Ok(front.push(level)),
                }
            },
        }
    }
}

/// The positions below `n` that are not marked as removed, ascending.
pub open spec fn live_positions(n: nat, removed: Seq<u64>) -> Seq<int>
    decreases n,
{
    if n == 0 {
        Seq::empty()
    } else if is_removed(removed, n - 1) {
        live_positions((n - 1) as nat, removed)
    } else {
        live_positions((n - 1) as nat, removed).push(n - 1)
    }
}

/// No removed node shows in the decoded levels: each level that comes out is
/// that of a node which is not marked as removed, the levels come in the
/// order of their nodes, and every node that is not marked has its level
/// among them.
pub proof fn lemma_tombstones_left_out(nodes: Seq<Json>, removed: Seq<u64>)
    requires
        live_levels(nodes, removed) is Ok,
    ensures
        live_levels(nodes, removed)->Ok_0.len() == live_positions(nodes.len(), removed).len(),
        forall|k: int|
            0 <= k < live_positions(nodes.len(), removed).len() ==> {
                let at = #[trigger] live_positions(nodes.len(), removed)[k];
                &&& 0 <= at < nodes.len()
                &&& !is_removed(removed, at)
                &&& level_of(nodes[at]) == Ok::<PriceLevelView, DecodeError>(
                    live_levels(nodes, removed)->Ok_0[k],
                )
            },
        forall|k: int, m: int|
            0 <= k < m < live_positions(nodes.len(), removed).len() ==> live_positions(
                nodes.len(),
                removed,
            )[k] < live_positions(nodes.len(), removed)[m],
        forall|i: int|
            0 <= i < nodes.len() && !is_removed(removed, i) ==> live_positions(
                nodes.len(),
                removed,
            ).contains(i),
    decreases nodes.len(),
{
    if nodes.len() > 0 {
        let front = nodes.drop_last();
        lemma_tombstones_left_out(front, removed);
        let before = live_positions(front.len(), removed);
        let now = live_positions(nodes.len(), removed);
        assert forall|i: int| 0 <= i < nodes.len() && !is_removed(removed, i) implies now.contains(
            i,
        ) by {
            if i < nodes.len() - 1 {
                let k = choose|k: int| 0 <= k < before.len() && before[k] == i;
                assert(now[k] == i);
            } else {
                assert(now[now.len() - 1] == i);
            }
        }
    }
}

/// A fault among the first `k` nodes is the fault of the whole list.
pub proof fn lemma_levels_fault_stays(nodes: Seq<Json>, removed: Seq<u64>, k: int)
    requires
        0 <= k <= nodes.len(),
        live_levels(nodes.subrange(0, k), removed) is Err,
    ensures
        live_levels(nodes, removed) == live_levels(nodes.subrange(0, k), removed),
    decreases nodes.len() - k,
{
    if k == nodes.len() {
        assert(nodes.subrange(0, k) =~= nodes);
    } else {
        let longer = nodes.subrange(0, k + 1);
        assert(longer.drop_last() =~= nodes.subrange(0, k));
        lemma_levels_fault_stays(nodes, removed, k + 1);
    }
}

/// Reads the price levels of the nodes that are not marked as removed.
pub fn read_live_levels(nodes: &Vec<Json>, removed: &Vec<u64>) -> (r: Result<
    Vec<PriceLevel>,
    DecodeError,
>)
    ensures
        match r {
            Ok(levels) => live_levels(nodes@, removed@) == Ok::<Seq<PriceLevelView>, DecodeError>(
                levels_view(levels@),
            ),
            Err(e) => live_levels(nodes@, removed@) == Err::<Seq<PriceLevelView>, DecodeError>(e),
        },
{
    let mut out: Vec<PriceLevel> = Vec::new();
    let mut i: usize = 0;
    assert(nodes@.subrange(0, 0) =~= Seq::<Json>::empty());
    assert(levels_view(out@) =~= Seq::<PriceLevelView>::empty());
    while i < nodes.len()
        invariant
            0 <= i <= nodes@.len(),
            live_levels(nodes@.subrange(0, i as int), removed@) == Ok::<
                Seq<PriceLevelView>,
                DecodeError,
            >(levels_view(out@)),
        decreases nodes@.len() - i,
    {
        let ghost before = levels_view(out@);
        let ghost next = nodes@.subrange(0, i + 1);
        proof {
            assert(next.drop_last() =~= nodes@.subrange(0, i as int));
            assert(next.last() == nodes@[i as int]);
        }
        if !marks(removed, i) {
            match read_level(&nodes[i]) {
                Err(e) => {
                    proof {
                        lemma_levels_fault_stays(nodes@, removed@, i + 1);
                    }
                    return Err(e);
                },
                Ok(level) => {
                    out.push(level);
                    assert(levels_view(out@) =~= before.push(level@));
                },
            }
        }
        i = i + 1;
    }
    assert(nodes@.subrange(0, nodes@.len() as int) =~= nodes@);
    Ok(out)
}

/// The price levels of one side of a book: an object of the entries `nodes`,
/// `removed_nodes`, `max`, `min`, `root` and `single_splay` and no others. Of
/// several faults the first in this order decides the error: the kind of the
/// value, an unknown entry, the nodes' entry, the removed positions, and the
/// nodes that are not removed, one by one.
pub open spec fn side_of(j: Json) -> Result<Seq<PriceLevelView>, DecodeError> {
    let members = object_members(j);
    if members is Err {
        Err(members->Err_0)
    } else if !all_known(members->Ok_0, Schema::BookSide) {
        Err(DecodeError::UnknownField)
    } else {
        let nodes = field(members->Ok_0, "nodes"@);
        let removed = field(members->Ok_0, "removed_nodes"@);
        if nodes is Err {
            Err(nodes->Err_0)
        } else if array_items(nodes->Ok_0) is Err {
            Err(array_items(nodes->Ok_0)->Err_0)
        } else if removed is Err {
            Err(removed->Err_0)
        } else if array_items(removed->Ok_0) is Err {
            Err(array_items(removed->Ok_0)->Err_0)
        } else if tombstones_of(array_items(removed->Ok_0)->Ok_0) is Err {
            Err(tombstones_of(array_items(removed->Ok_0)->Ok_0)->Err_0)
        } else {
            live_levels(
                array_items(nodes->Ok_0)->Ok_0,
                tombstones_of(array_items(removed->Ok_0)->Ok_0)->Ok_0,
            )
        }
    }
}

/// Reads one side of a book. Either every level comes out or none.
pub fn read_side(j: &Json) -> (r: Result<Vec<PriceLevel>, DecodeError>)
    ensures
        match r {
            Ok(levels) => side_of(*j) == Ok::<Seq<PriceLevelView>, DecodeError>(
                levels_view(levels@),
            ),
            Err(e) => side_of(*j) == Err::<Seq<PriceLevelView>, DecodeError>(e),
        },
{
    let m = read_object(j)?;
    if !check_known(m, Schema::BookSide) {
        return Err(DecodeError::UnknownField);
    }
    let nodes = read_array(get_field(m, "nodes")?)?;
    let removed = read_tombstones(read_array(get_field(m, "removed_nodes")?)?)?;
    read_live_levels(nodes, &removed)
}

} // verus!
