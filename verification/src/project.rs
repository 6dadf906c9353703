//! The state of one order, worked out afresh from its events on every
//! query.

use crate::error::Error;
use crate::events::{AmendOrderEvent, CancelOrderEvent, FillEvent, PlaceOrderEvent};
use crate::filter::{EventKey, FilterMode, find_first, first_matching, select, selected};
use crate::order::{Order, OrderView};
use crate::types::{Id, State};
use vstd::prelude::*;

verus! {

/// What an order that has not been filled yet has remaining.
#[derive(Clone, Copy, Debug, PartialEq, Eq, Structural)]
pub enum UnfilledRemaining {
    /// Nothing. An order without fills then counts as closed. This is how
    /// the client has always answered; whether it should is an open
    /// question, so the choice is the caller's.
    Zero,
    /// The whole size of the order, as placed or as last amended.
    FullSize,
}

/// The price and the size of an order: those of its last amendment, or
/// those it was placed with where it was never amended.
pub open spec fn current_terms(place: PlaceOrderEvent, amends: Seq<AmendOrderEvent>) -> (u64, u64) {
    if amends.len() > 0 {
        (amends.last().price, amends.last().size)
    } else {
        (place.price, place.size)
    }
}

/// What remains of an order of the given size: what its last fill left, or
/// the chosen default where it has no fill.
pub open spec fn remaining_after(size: u64, fills: Seq<FillEvent>, unfilled: UnfilledRemaining)
    -> u64 {
    if fills.len() > 0 {
        fills.last().remaining_size
    } else {
        match unfilled {
            UnfilledRemaining::Zero => 0,
            UnfilledRemaining::FullSize => size,
        }
    }
}

/// Where an order stands: closed once nothing remains or it was cancelled,
/// else partially filled once it has a fill, else open.
pub open spec fn state_from(remaining: u64, cancelled: bool, filled: bool) -> State {
    if remaining == 0 || cancelled {
        State::Closed
    } else if filled {
        State::PartiallyFilled
    } else {
        State::Open
    }
}

/// The order that its events make up.
pub open spec fn projected(
    order_id: Id,
    place: PlaceOrderEvent,
    amends: Seq<AmendOrderEvent>,
    cancelled: bool,
    fills: Seq<FillEvent>,
    unfilled: UnfilledRemaining,
) -> OrderView {
    let (price, size) = current_terms(place, amends);
    let remaining = remaining_after(size, fills, unfilled);
    OrderView {
        id: order_id,
        side: place.side,
        price,
        size,
        post_only: place.post_only,
        remaining_size: remaining,
        state: state_from(remaining, cancelled, fills.len() > 0),
        fills,
    }
}

/// One more fill never raises what remains of an order, as long as the fill
/// itself reports no more than remained before it. (A fill that reports more
/// does raise it: what remains is always what the last fill reports.)
pub proof fn lemma_fill_never_raises_remaining(
    order_id: Id,
    place: PlaceOrderEvent,
    amends: Seq<AmendOrderEvent>,
    cancelled: bool,
    fills: Seq<FillEvent>,
    unfilled: UnfilledRemaining,
    fill: FillEvent,
)
    requires
        fill.remaining_size <= projected(
            order_id,
            place,
            amends,
            cancelled,
            fills,
            unfilled,
        ).remaining_size,
    ensures
        projected(order_id, place, amends, cancelled, fills.push(fill), unfilled).remaining_size
            <= projected(order_id, place, amends, cancelled, fills, unfilled).remaining_size,
{
}

/// A closed order stays closed under further fills, with the same
/// amendments and the same cancellation, where it was cancelled or the last
/// of the further fills leaves nothing. (An order that is closed only
/// because nothing remained opens again with a fill that leaves something.)
pub proof fn lemma_closed_stays_closed(
    order_id: Id,
    place: PlaceOrderEvent,
    amends: Seq<AmendOrderEvent>,
    cancelled: bool,
    fills: Seq<FillEvent>,
    unfilled: UnfilledRemaining,
    more: Seq<FillEvent>,
)
    requires
        projected(order_id, place, amends, cancelled, fills, unfilled).state == State::Closed,
        cancelled || more.len() == 0 || more.last().remaining_size == 0,
    ensures
        projected(order_id, place, amends, cancelled, fills + more, unfilled).state
            == State::Closed,
{
    if more.len() == 0 {
        assert(fills + more =~= fills);
    } else {
        assert((fills + more).last() == more.last());
    }
}

/// Works out an order from its events: the event that placed it, its
/// amendments and its fills in the order of their emission, and its
/// cancellation if there is one. The fills go into the order as they are.
pub fn project(
    order_id: Id,
    place: &PlaceOrderEvent,
    amends: &Vec<AmendOrderEvent>,
    cancel: Option<&CancelOrderEvent>,
    fills: Vec<FillEvent>,
    unfilled: UnfilledRemaining,
) -> (r: Order)
    ensures
        r@ == projected(order_id, *place, amends@, cancel.is_some(), fills@, unfilled),
{
    let (price, size) = if amends.len() > 0 {
        let last = &amends[amends.len() - 1];
        (last.price, last.size)
    } else {
        (place.price, place.size)
    };
    let remaining_size = if fills.len() > 0 {
        fills[fills.len() - 1].remaining_size
    } else {
        match unfilled {
            UnfilledRemaining::Zero => 0,
            UnfilledRemaining::FullSize => size,
        }
    };
    let state = if remaining_size == 0 || cancel.is_some() {
        State::Closed
    } else if fills.len() > 0 {
        State::PartiallyFilled
    } else {
        State::Open
    };
    Order {
        id: order_id,
        side: place.side,
        price,
        size,
        post_only: place.post_only,
        remaining_size,
        state,
        fills,
    }
}

/// The event logs of one account, as fetched, with the choices that govern
/// what is read from them.
#[derive(Debug)]
pub struct EventLog {
    pub places: Vec<PlaceOrderEvent>,
    pub amends: Vec<AmendOrderEvent>,
    pub cancels: Vec<CancelOrderEvent>,
    pub fills: Vec<FillEvent>,
    /// What a selection by book or by order hands out.
    pub mode: FilterMode,
    /// What an order without fills has remaining.
    pub unfilled: UnfilledRemaining,
}

impl EventLog {
    /// The event that placed the order, if the order exists.
    pub open spec fn place_of(&self, order_id: Id) -> Option<PlaceOrderEvent> {
        first_matching(self.places@, EventKey::Order(order_id))
    }

    /// The amendments that are read for the order.
    pub open spec fn amends_of(&self, order_id: Id) -> Seq<AmendOrderEvent> {
        selected(self.amends@, EventKey::Order(order_id), self.mode)
    }

    /// The cancellation of the order, if it was cancelled.
    pub open spec fn cancel_of(&self, order_id: Id) -> Option<CancelOrderEvent> {
        first_matching(self.cancels@, EventKey::Order(order_id))
    }

    /// The fills that are read for the order.
    pub open spec fn fills_of(&self, order_id: Id) -> Seq<FillEvent> {
        selected(self.fills@, EventKey::Order(order_id), self.mode)
    }

    /// The order that the logs make up, if it exists.
    pub open spec fn order_of(&self, order_id: Id) -> Result<OrderView, Error> {
        match self.place_of(order_id) {
            None => Err(Error::NotFound),
            Some(place) => Ok(
                projected(
                    order_id,
                    place,
                    self.amends_of(order_id),
                    self.cancel_of(order_id).is_some(),
                    self.fills_of(order_id),
                    self.unfilled,
                ),
            ),
        }
    }

    /// The place events that are read for a book.
    pub fn fetch_all_place_events(&self, book_id: &Id) -> (r: Vec<PlaceOrderEvent>)
        ensures
            r@ == selected(self.places@, EventKey::Book(*book_id), self.mode),
    {
        select(&self.places, EventKey::Book(*book_id), self.mode)
    }

    /// The amend events that are read for a book.
    pub fn fetch_all_amend_events(&self, book_id: &Id) -> (r: Vec<AmendOrderEvent>)
        ensures
            r@ == selected(self.amends@, EventKey::Book(*book_id), self.mode),
    {
        select(&self.amends, EventKey::Book(*book_id), self.mode)
    }

    /// The cancel events that are read for a book.
    pub fn fetch_all_cancel_events(&self, book_id: &Id) -> (r: Vec<CancelOrderEvent>)
        ensures
            r@ == selected(self.cancels@, EventKey::Book(*book_id), self.mode),
    {
        select(&self.cancels, EventKey::Book(*book_id), self.mode)
    }

    /// The fill events that are read for a book.
    pub fn fetch_all_fill_events(&self, book_id: &Id) -> (r: Vec<FillEvent>)
        ensures
            r@ == selected(self.fills@, EventKey::Book(*book_id), self.mode),
    {
        select(&self.fills, EventKey::Book(*book_id), self.mode)
    }

    /// The event that placed the order. An order that was never placed does
    /// not exist.
    pub fn get_place_event(&self, order_id: &Id) -> (r: Result<PlaceOrderEvent, Error>)
        ensures
            r == match self.place_of(*order_id) {
                Some(e) => Ok::<PlaceOrderEvent, Error>(e),
                None => Err::<PlaceOrderEvent, Error>(Error::NotFound),
            },
    {
        match find_first(&self.places, EventKey::Order(*order_id)) {
            Some(e) => Ok(e),
            None => Err(Error::NotFound),
        }
    }

    /// The amendments that are read for an order that exists.
    pub fn get_amend_events(&self, order_id: &Id) -> (r: Result<Vec<AmendOrderEvent>, Error>)
        ensures
            match r {
                Ok(events) => self.place_of(*order_id).is_some() && events@ == self.amends_of(
                    *order_id,
                ),
                Err(e) => self.place_of(*order_id).is_none() && e == Error::NotFound,
            },
    {
        match self.get_place_event(order_id) {
            Ok(_) => Ok(select(&self.amends, EventKey::Order(*order_id), self.mode)),
            Err(e) => Err(e),
        }
    }

    /// The cancellation of an order, if it was cancelled.
    pub fn get_cancel_event(&self, order_id: &Id) -> (r: Option<CancelOrderEvent>)
        ensures
            r == self.cancel_of(*order_id),
    {
        find_first(&self.cancels, EventKey::Order(*order_id))
    }

    /// The fills that are read for an order that exists.
    pub fn get_fill_events(&self, order_id: &Id) -> (r: Result<Vec<FillEvent>, Error>)
        ensures
            match r {
                Ok(events) => self.place_of(*order_id).is_some() && events@ == self.fills_of(
                    *order_id,
                ),
                Err(e) => self.place_of(*order_id).is_none() && e == Error::NotFound,
            },
    {
        match self.get_place_event(order_id) {
            Ok(_) => Ok(select(&self.fills, EventKey::Order(*order_id), self.mode)),
            Err(e) => Err(e),
        }
    }

    /// The order as its events make it up.
    pub fn get_order(&self, order_id: &Id) -> (r: Result<Order, Error>)
        ensures
            match r {
                Ok(order) => self.order_of(*order_id) == Ok::<OrderView, Error>(order@),
                Err(e) => self.order_of(*order_id) == Err::<OrderView, Error>(e),
            },
    {
        let place = self.get_place_event(order_id)?;
        let amends = select(&self.amends, EventKey::Order(*order_id), self.mode);
        let cancel = self.get_cancel_event(order_id);
        let fills = select(&self.fills, EventKey::Order(*order_id), self.mode);
        Ok(project(*order_id, &place, &amends, cancel.as_ref(), fills, self.unfilled))
    }
}

} // verus!
