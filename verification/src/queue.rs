//! The queue of one price level: entries in an array, linked from a head
//! through `next` pointers up to the end mark, oldest order first.

use crate::json::DecodeError;
use crate::order::{Order, orders_view, OrderView};
use vstd::prelude::*;

verus! {

/// The pointer that ends a queue.
pub const END_OF_QUEUE: u64 = u64::MAX;

/// One entry of a queue: the pointer to the next entry and a container that
/// is to hold one order.
#[derive(Debug)]
pub struct QueueEntry {
    pub next: u64,
    pub orders: Vec<Order>,
}

/// A queue as the ledger stores it.
#[derive(Debug)]
pub struct OrderQueue {
    pub head: u64,
    pub entries: Vec<QueueEntry>,
}

/// What a queue entry holds, as a mathematical value.
pub struct QueueEntryView {
    pub next: u64,
    pub orders: Seq<OrderView>,
}

/// What a stored queue holds, as a mathematical value.
pub struct OrderQueueView {
    pub head: u64,
    pub entries: Seq<QueueEntryView>,
}

impl View for QueueEntry {
    type V = QueueEntryView;

    open spec fn view(&self) -> QueueEntryView {
        QueueEntryView { next: self.next, orders: orders_view(self.orders@) }
    }
}

impl View for OrderQueue {
    type V = OrderQueueView;

    open spec fn view(&self) -> OrderQueueView {
        OrderQueueView { head: self.head, entries: self.entries@.map_values(|e: QueueEntry| e@) }
    }
}

/// The orders met on the way from the entry `at` to the end mark, in the
/// order of the way, where the way is given `fuel` steps. The first fault on
/// the way decides the error: a pointer outside the entries, a further entry
/// once the steps are used up, or an entry without an order.
pub open spec fn walk(entries: Seq<QueueEntryView>, at: u64, fuel: nat) -> Result<
    Seq<OrderView>,
    DecodeError,
>
    decreases fuel,
{
    if at == u64::MAX {
        Ok(Seq::empty())
    } else if at >= entries.len() {
        Err(DecodeError::BadIndex)
    } else if fuel == 0 {
        Err(DecodeError::QueueCycle)
    } else if entries[at as int].orders.len() == 0 {
        Err(DecodeError::EmptyOrderSlot)
    } else {
        match walk(entries, entries[at as int].next, (fuel - 1) as nat) {
            Ok(rest) => Ok(seq![entries[at as int].orders[0]] + rest),
            Err(e) => Err(e),
        }
    }
}

/// The orders of a queue, oldest first. A way that is longer than the queue
/// has entries passes some entry twice and so never ends.
pub open spec fn queue_orders(q: OrderQueueView) -> Result<Seq<OrderView>, DecodeError> {
    walk(q.entries, q.head, q.entries.len())
}

/// The entries met on the way from `at` to the end mark within `fuel` steps;
/// `None` where the way leaves the entries or does not end.
pub open spec fn chain(entries: Seq<QueueEntryView>, at: u64, fuel: nat) -> Option<Seq<int>>
    decreases fuel,
{
    if at == u64::MAX {
        Some(Seq::empty())
    } else if fuel == 0 || at >= entries.len() {
        None
    } else {
        match chain(entries, entries[at as int].next, (fuel - 1) as nat) {
            Some(rest) => Some(seq![at as int] + rest),
            None => None,
        }
    }
}

/// The way through a queue, from its head.
pub open spec fn queue_chain(q: OrderQueueView) -> Option<Seq<int>> {
    chain(q.entries, q.head, q.entries.len())
}

/// Whether each of the entries `way` lies within `entries` and holds an order.
pub open spec fn all_filled(entries: Seq<QueueEntryView>, way: Seq<int>) -> bool {
    forall|k: int|
        0 <= k < way.len() ==> 0 <= #[trigger] way[k] < entries.len() && entries[way[k]].orders.len()
            > 0
}

/// The first orders of the entries `way`, in the order of `way`.
pub open spec fn orders_along(entries: Seq<QueueEntryView>, way: Seq<int>) -> Seq<OrderView> {
    Seq::new(way.len(), |k: int| entries[way[k]].orders[0])
}

/// `front`, followed by what `rest` holds where it holds orders.
pub open spec fn after(front: Seq<OrderView>, rest: Result<Seq<OrderView>, DecodeError>) -> Result<
    Seq<OrderView>,
    DecodeError,
> {
    match rest {
        Ok(tail) => Ok(front + tail),
        Err(e) => Err(e),
    }
}

/// Where the way from `at` ends within `fuel` steps and each entry on it
/// holds an order, the walk yields the first orders of the entries on the
/// way, in the order of the way.
pub proof fn lemma_walk_follows_chain(entries: Seq<QueueEntryView>, at: u64, fuel: nat)
    requires
        chain(entries, at, fuel) is Some,
        all_filled(entries, chain(entries, at, fuel)->Some_0),
    ensures
        walk(entries, at, fuel) == Ok::<Seq<OrderView>, DecodeError>(
            orders_along(entries, chain(entries, at, fuel)->Some_0),
        ),
    decreases fuel,
{
    let way = chain(entries, at, fuel)->Some_0;
    if at == u64::MAX {
        assert(orders_along(entries, way) =~= Seq::<OrderView>::empty());
    } else {
        let next = entries[at as int].next;
        let rest = chain(entries, next, (fuel - 1) as nat)->Some_0;
        assert(way == seq![at as int] + rest);
        assert(way[0] == at as int);
        assert forall|k: int| 0 <= k < rest.len() implies 0 <= #[trigger] rest[k] < entries.len()
            && entries[rest[k]].orders.len() > 0 by {
            assert(rest[k] == way[k + 1]);
        }
        lemma_walk_follows_chain(entries, next, (fuel - 1) as nat);
        assert(orders_along(entries, way) =~= seq![entries[at as int].orders[0]] + orders_along(
            entries,
            rest,
        ));
    }
}

/// Two queues over the same containers, the one linked in the reverse order
/// of the other, hold the same orders in reverse order.
pub proof fn lemma_reversed_linkage_reverses_orders(q: OrderQueueView, r: OrderQueueView)
    requires
        q.entries.len() == r.entries.len(),
        forall|i: int| 0 <= i < q.entries.len() ==> q.entries[i].orders == r.entries[i].orders,
        queue_chain(q) is Some,
        queue_chain(r) == Some(queue_chain(q)->Some_0.reverse()),
        all_filled(q.entries, queue_chain(q)->Some_0),
    ensures
        queue_orders(q) is Ok,
        queue_orders(r) == Ok::<Seq<OrderView>, DecodeError>(queue_orders(q)->Ok_0.reverse()),
{
    let way = queue_chain(q)->Some_0;
    let back = way.reverse();
    assert forall|k: int| 0 <= k < back.len() implies 0 <= #[trigger] back[k] < r.entries.len()
        && r.entries[back[k]].orders.len() > 0 by {
        assert(back[k] == way[way.len() - 1 - k]);
    }
    lemma_walk_follows_chain(q.entries, q.head, q.entries.len());
    lemma_walk_follows_chain(r.entries, r.head, r.entries.len());
    assert(orders_along(r.entries, back) =~= orders_along(q.entries, way).reverse());
}

/// A queue of one entry, which holds the order `o` and ends the queue,
/// holds exactly that order.
pub proof fn lemma_single_order_queue(o: OrderView)
    ensures
        queue_orders(
            OrderQueueView {
                head: 0,
                entries: seq![QueueEntryView { next: u64::MAX, orders: seq![o] }],
            },
        ) == Ok::<Seq<OrderView>, DecodeError>(seq![o]),
{
    let entries = seq![QueueEntryView { next: u64::MAX, orders: seq![o] }];
    reveal_with_fuel(walk, 3);
    assert(walk(entries, u64::MAX, 0) == Ok::<Seq<OrderView>, DecodeError>(Seq::empty()));
    assert(seq![o] + Seq::<OrderView>::empty() =~= seq![o]);
}

impl OrderQueue {
    /// Follows the queue from its head to the end mark and hands out the
    /// orders in that order, oldest first.
    pub fn resolve(&self) -> (r: Result<Vec<Order>, DecodeError>)
        ensures
            match r {
                Ok(orders) => queue_orders(self@) == Ok::<Seq<OrderView>, DecodeError>(
                    orders_view(orders@),
                ),
                Err(e) => queue_orders(self@) == Err::<Seq<OrderView>, DecodeError>(e),
            },
    {
        let n: usize = self.entries.len();
        let ghost entries = self@.entries;
        let mut out: Vec<Order> = Vec::new();
        let mut current: u64 = self.head;
        let mut steps: usize = 0;
        assert(orders_view(out@) + Seq::<OrderView>::empty() =~= Seq::<OrderView>::empty());
        assert(Seq::<OrderView>::empty() + Seq::<OrderView>::empty() =~= Seq::<OrderView>::empty());
        while current != END_OF_QUEUE
            invariant
                n == self.entries@.len(),
                entries == self@.entries,
                entries.len() == n,
                steps <= n,
                queue_orders(self@) == after(
                    orders_view(out@),
                    walk(entries, current, (n - steps) as nat),
                ),
            decreases n - steps,
        {
            if current >= n as u64 {
                return Err(DecodeError::BadIndex);
            }
            if steps == n {
                return Err(DecodeError::QueueCycle);
            }
            let entry = &self.entries[current as usize];
            assert(entries[current as int] == entry@);
            if entry.orders.len() == 0 {
                return Err(DecodeError::EmptyOrderSlot);
            }
            let ghost before = orders_view(out@);
            let order = entry.orders[0].clone();
            out.push(order);
            proof {
                let first = entries[current as int].orders[0];
                assert(first == order@);
                assert(orders_view(out@) =~= before.push(first));
                let rest = walk(entries, entry.next, (n - steps - 1) as nat);
                match rest {
                    Ok(tail) => {
                        assert(before + (seq![first] + tail) =~= before.push(first) + tail);
                    },
                    Err(_) => {},
                }
            }
            current = entry.next;
            steps = steps + 1;
        }
        assert(orders_view(out@) + Seq::<OrderView>::empty() =~= orders_view(out@));
        Ok(out)
    }
}

} // verus!
