//! An order as the client sees it: a projection, computed afresh from the
//! ledger's data on every query.

use crate::events::FillEvent;
use crate::fields::{field_flag, field_u64, get_flag, get_u64, object_members, read_object};
use crate::json::{DecodeError, Json};
use crate::types::{field_id, field_side, get_id, get_side, Id, Side, State};
use vstd::prelude::*;

verus! {

/// An order with its fills.
#[derive(Debug)]
pub struct Order {
    pub id: Id,
    pub side: Side,
    pub price: u64,
    pub size: u64,
    pub post_only: bool,
    pub remaining_size: u64,
    pub state: State,
    pub fills: Vec<FillEvent>,
}

/// What an order holds, as a mathematical value.
pub struct OrderView {
    pub id: Id,
    pub side: Side,
    pub price: u64,
    pub size: u64,
    pub post_only: bool,
    pub remaining_size: u64,
    pub state: State,
    pub fills: Seq<FillEvent>,
}

impl View for Order {
    type V = OrderView;

    open spec fn view(&self) -> OrderView {
        OrderView {
            id: self.id,
            side: self.side,
            price: self.price,
            size: self.size,
            post_only: self.post_only,
            remaining_size: self.remaining_size,
            state: self.state,
            fills: self.fills@,
        }
    }
}

/// What a list of orders holds, in its order.
pub open spec fn orders_view(orders: Seq<Order>) -> Seq<OrderView> {
    orders.map_values(|o: Order| o@)
}

impl Clone for Order {
    fn clone(&self) -> (r: Order)
        ensures
            r@ == self@,
    {
        let mut fills: Vec<FillEvent> = Vec::new();
        let mut i: usize = 0;
        while i < self.fills.len()
            invariant
                0 <= i <= self.fills@.len(),
                fills@ == self.fills@.subrange(0, i as int),
            decreases self.fills@.len() - i,
        {
            fills.push(self.fills[i]);
            assert(fills@ =~= self.fills@.subrange(0, i + 1));
            i = i + 1;
        }
        assert(fills@ =~= self.fills@);
        Order {
            id: self.id,
            side: self.side,
            price: self.price,
            size: self.size,
            post_only: self.post_only,
            remaining_size: self.remaining_size,
            state: self.state,
            fills,
        }
    }
}

impl Order {
    /// The order that an object of a book snapshot denotes, entry by entry
    /// in the order of the fields; the first entry at fault decides the
    /// error. A snapshot tells nothing of fills: the order comes out open and
    /// without any.
    pub open spec fn of_json(j: Json) -> Result<OrderView, DecodeError> {
        let members = object_members(j);
        if members is Err {
            Err(members->Err_0)
        } else {
            let m = members->Ok_0;
            let id = field_id(m, "id"@);
            let side = field_side(m, "side"@);
            let price = field_u64(m, "price"@);
            let size = field_u64(m, "size"@);
            let post_only = field_flag(m, "post_only"@);
            let remaining_size = field_u64(m, "remaining_size"@);
            if id is Err {
                Err(id->Err_0)
            } else if side is Err {
                Err(side->Err_0)
            } else if price is Err {
                Err(price->Err_0)
            } else if size is Err {
                Err(size->Err_0)
            } else if post_only is Err {
                Err(post_only->Err_0)
            } else if remaining_size is Err {
                Err(remaining_size->Err_0)
            } else {
                Ok(
                    OrderView {
                        id: id->Ok_0,
                        side: side->Ok_0,
                        price: price->Ok_0,
                        size: size->Ok_0,
                        post_only: post_only->Ok_0,
                        remaining_size: remaining_size->Ok_0,
                        state: State::Open,
                        fills: Seq::empty(),
                    },
                )
            }
        }
    }

    /// Reads an order of a book snapshot.
    pub fn from_json(j: &Json) -> (r: Result<Order, DecodeError>)
        ensures
            match r {
                Ok(o) => Order::of_json(*j) == Ok::<OrderView, DecodeError>(o@),
                Err(e) => Order::of_json(*j) == Err::<OrderView, DecodeError>(e),
            },
    {
        let m = read_object(j)?;
        let id = get_id(m, "id")?;
        let side = get_side(m, "side")?;
        let price = get_u64(m, "price")?;
        let size = get_u64(m, "size")?;
        let post_only = get_flag(m, "post_only")?;
        let remaining_size = get_u64(m, "remaining_size")?;
        Ok(
            Order {
                id,
                side,
                price,
                size,
                post_only,
                remaining_size,
                state: State::Open,
                fills: Vec::new(),
            },
        )
    }
}

} // verus!
