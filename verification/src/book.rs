//! The order book: both sides by price, with the terms of the instrument.

use crate::error::Error;
use crate::fields::{all_known, check_known, field, get_field, object_members, read_object, Schema};
use crate::json::{DecodeError, Json, lookup, Member};
use crate::order::{Order, orders_view, OrderView};
use crate::snapshot::{levels_view, PriceLevel, PriceLevelView, read_side, side_of};
use crate::types::{field_id, get_id, Id, Instrument};
use std::collections::BTreeMap;
use vstd::prelude::*;

verus! {

/// A book: the resting orders of both sides, by ascending price and, at one
/// price, oldest first.
#[derive(Debug)]
pub struct OrderBook {
    pub id: Id,
    pub instrument: Instrument,
    pub bids: BTreeMap<u64, Vec<Order>>,
    pub asks: BTreeMap<u64, Vec<Order>>,
    /// The coin types of the book, base before quote.
    pub type_tags: Vec<String>,
}

/// What a book holds, as a mathematical value.
pub struct OrderBookView {
    pub id: Id,
    pub instrument: Instrument,
    pub bids: Map<u64, Seq<OrderView>>,
    pub asks: Map<u64, Seq<OrderView>>,
    pub type_tags: Seq<Seq<char>>,
}

/// What one side of a book holds: for each price its orders.
pub open spec fn side_view(side: Map<u64, Vec<Order>>) -> Map<u64, Seq<OrderView>> {
    Map::new(|p: u64| side.contains_key(p), |p: u64| orders_view(side[p]@))
}

impl View for OrderBook {
    type V = OrderBookView;

    open spec fn view(&self) -> OrderBookView {
        OrderBookView {
            id: self.id,
            instrument: self.instrument,
            bids: side_view(self.bids@),
            asks: side_view(self.asks@),
            type_tags: self.type_tags@.map_values(|t: String| t@),
        }
    }
}

/// The levels as a map from price to orders. Where two levels bear the same
/// price, the later one stands.
pub open spec fn side_map(levels: Seq<PriceLevelView>) -> Map<u64, Seq<OrderView>>
    decreases levels.len(),
{
    if levels.len() == 0 {
        Map::empty()
    } else {
        side_map(levels.drop_last()).insert(levels.last().price, levels.last().orders)
    }
}

/// Copies a list of orders.
pub fn copy_orders(orders: &Vec<Order>) -> (r: Vec<Order>)
    ensures
        orders_view(r@) == orders_view(orders@),
{
    let mut out: Vec<Order> = Vec::new();
    let mut i: usize = 0;
    while i < orders.len()
        invariant
            0 <= i <= orders@.len(),
            orders_view(out@) == orders_view(orders@.subrange(0, i as int)),
        decreases orders@.len() - i,
    {
        let ghost before = orders_view(out@);
        let o = orders[i].clone();
        out.push(o);
        assert(orders_view(out@) =~= before.push(o@));
        assert(orders_view(orders@.subrange(0, i + 1)) =~= before.push(orders@[i as int]@));
        i = i + 1;
    }
    assert(orders@.subrange(0, orders@.len() as int) =~= orders@);
    out
}

/// Files the levels of one side by price.
pub fn build_side(levels: &Vec<PriceLevel>) -> (r: BTreeMap<u64, Vec<Order>>)
    ensures
        side_view(r@) == side_map(levels_view(levels@)),
{
    let mut out: BTreeMap<u64, Vec<Order>> = BTreeMap::new();
    let mut i: usize = 0;
    assert(side_view(out@) =~= Map::<u64, Seq<OrderView>>::empty());
    assert(levels_view(levels@.subrange(0, 0)) =~= Seq::<PriceLevelView>::empty());
    while i < levels.len()
        invariant
            0 <= i <= levels@.len(),
            side_view(out@) == side_map(levels_view(levels@.subrange(0, i as int))),
        decreases levels@.len() - i,
    {
        let ghost before = out@;
        let ghost next = levels_view(levels@.subrange(0, i + 1));
        let orders = copy_orders(&levels[i].orders);
        proof {
            assert(next.drop_last() =~= levels_view(levels@.subrange(0, i as int)));
            assert(next.last() == levels@[i as int]@);
        }
        out.insert(levels[i].price, orders);
        assert(side_view(out@) =~= side_view(before).insert(
            levels@[i as int].price,
            orders_view(orders@),
        ));
        i = i + 1;
    }
    assert(levels@.subrange(0, levels@.len() as int) =~= levels@);
    out
}

/// The value of the entry named `name`, where there is one.
pub open spec fn optional_field(members: Seq<Member>, name: Seq<char>) -> Result<
    Option<Json>,
    DecodeError,
> {
    match lookup(members, name) {
        Ok(i) => Ok(Some(members[i].value)),
        Err(DecodeError::MissingField) => Ok(None),
        Err(e) => Err(e),
    }
}

/// Looks up the entry named `name`, which may be absent.
pub fn get_optional_field<'a>(members: &'a Vec<Member>, name: &str) -> (r: Result<
    Option<&'a Json>,
    DecodeError,
>)
    ensures
        match r {
            Ok(Some(v)) => optional_field(members@, name@) == Ok::<Option<Json>, DecodeError>(
                Some(*v),
            ),
            Ok(None) => optional_field(members@, name@) == Ok::<Option<Json>, DecodeError>(None),
            Err(e) => optional_field(members@, name@) == Err::<Option<Json>, DecodeError>(e),
        },
{
    match crate::json::find_member(members, name) {
        Ok(v) => Ok(Some(v)),
        Err(DecodeError::MissingField) => Ok(None),
        Err(e) => Err(e),
    }
}

/// The side in an entry that may be absent: by price, and empty where the
/// entry is absent.
pub open spec fn optional_side(entry: Option<Json>) -> Result<
    Map<u64, Seq<OrderView>>,
    DecodeError,
> {
    match entry {
        None => Ok(Map::empty()),
        Some(j) => match side_of(j) {
            Ok(levels) => Ok(side_map(levels)),
            Err(e) => Err(e),
        },
    }
}

/// The terms in the entry named `name`.
pub open spec fn field_instrument(members: Seq<Member>, name: Seq<char>) -> Result<
    Instrument,
    DecodeError,
> {
    match field(members, name) {
        Ok(v) => Instrument::of_json(v),
        Err(e) => Err(e),
    }
}

/// The book that a snapshot denotes: an object of the entries `id`,
/// `instrument`, `bids`, `asks`, `orders` and `signer_addr` and no others,
/// with at least one of `bids` and `asks`. A side that is absent is empty.
/// The book bears no coin types. Of several faults the first in this order
/// decides the error: the kind of the value, an unknown entry, the
/// identifier, the terms, the bids, the asks, and the lack of both sides.
pub open spec fn book_of(j: Json) -> Result<OrderBookView, DecodeError> {
    let members = object_members(j);
    if members is Err {
        Err(members->Err_0)
    } else if !all_known(members->Ok_0, Schema::Book) {
        Err(DecodeError::UnknownField)
    } else {
        let m = members->Ok_0;
        let id = field_id(m, "id"@);
        let instrument = field_instrument(m, "instrument"@);
        let bids = optional_field(m, "bids"@);
        let asks = optional_field(m, "asks"@);
        if id is Err {
            Err(id->Err_0)
        } else if instrument is Err {
            Err(instrument->Err_0)
        } else if bids is Err {
            Err(bids->Err_0)
        } else if optional_side(bids->Ok_0) is Err {
            Err(optional_side(bids->Ok_0)->Err_0)
        } else if asks is Err {
            Err(asks->Err_0)
        } else if optional_side(asks->Ok_0) is Err {
            Err(optional_side(asks->Ok_0)->Err_0)
        } else if bids->Ok_0 is None && asks->Ok_0 is None {
            Err(DecodeError::MissingField)
        } else {
            Ok(
                OrderBookView {
                    id: id->Ok_0,
                    instrument: instrument->Ok_0,
                    bids: optional_side(bids->Ok_0)->Ok_0,
                    asks: optional_side(asks->Ok_0)->Ok_0,
                    type_tags: Seq::empty(),
                },
            )
        }
    }
}

/// Reads a side that may be absent.
pub fn read_optional_side(entry: Option<&Json>) -> (r: Result<
    BTreeMap<u64, Vec<Order>>,
    DecodeError,
>)
    ensures
        match r {
            Ok(side) => optional_side(
                match entry {
                    Some(j) => Some(*j),
                    None => None,
                },
            ) == Ok::<Map<u64, Seq<OrderView>>, DecodeError>(side_view(side@)),
            Err(e) => optional_side(
                match entry {
                    Some(j) => Some(*j),
                    None => None,
                },
            ) == Err::<Map<u64, Seq<OrderView>>, DecodeError>(e),
        },
{
    match entry {
        None => {
            let side: BTreeMap<u64, Vec<Order>> = BTreeMap::new();
            assert(side_view(side@) =~= Map::<u64, Seq<OrderView>>::empty());
            Ok(side)
        },
        Some(j) => {
            let levels = read_side(j)?;
            Ok(build_side(&levels))
        },
    }
}

impl OrderBook {
    /// Reads a book from a snapshot.
    pub fn from_json(j: &Json) -> (r: Result<OrderBook, DecodeError>)
        ensures
            match r {
                Ok(book) => book_of(*j) == Ok::<OrderBookView, DecodeError>(book@),
                Err(e) => book_of(*j) == Err::<OrderBookView, DecodeError>(e),
            },
    {
        let m = read_object(j)?;
        if !check_known(m, Schema::Book) {
            return Err(DecodeError::UnknownField);
        }
        let id = get_id(m, "id")?;
        let instrument = Instrument::from_json(get_field(m, "instrument")?)?;
        let bids_entry = get_optional_field(m, "bids")?;
        let bids = read_optional_side(bids_entry)?;
        let asks_entry = get_optional_field(m, "asks")?;
        let asks = read_optional_side(asks_entry)?;
        if bids_entry.is_none() && asks_entry.is_none() {
            return Err(DecodeError::MissingField);
        }
        let type_tags: Vec<String> = Vec::new();
        assert(type_tags@.map_values(|t: String| t@) =~= Seq::<Seq<char>>::empty());
        Ok(OrderBook { id, instrument, bids, asks, type_tags })
    }
}

/// The book that the snapshots of its two sides make up. The snapshot of
/// the bids gives the bids, that of the asks gives the asks, and a side
/// without a snapshot is empty. With neither there is no book. With both,
/// the two agree on the identifier and on the terms; a fault in the bids
/// comes before one in the asks, and both before a disagreement.
pub open spec fn assembled(bids: Option<Json>, asks: Option<Json>, tags: Seq<Seq<char>>) -> Result<
    OrderBookView,
    Error,
> {
    match (bids, asks) {
        (None, None) => Err(Error::NotFound),
        (Some(b), None) => match book_of(b) {
            Err(e) => Err(Error::Decode(e)),
            Ok(book) => Ok(OrderBookView { asks: Map::empty(), type_tags: tags, ..book }),
        },
        (None, Some(a)) => match book_of(a) {
            Err(e) => Err(Error::Decode(e)),
            Ok(book) => Ok(OrderBookView { bids: Map::empty(), type_tags: tags, ..book }),
        },
        (Some(b), Some(a)) => match book_of(b) {
            Err(e) => Err(Error::Decode(e)),
            Ok(bid_book) => match book_of(a) {
                Err(e) => Err(Error::Decode(e)),
                Ok(ask_book) => if bid_book.id != ask_book.id || bid_book.instrument
                    != ask_book.instrument {
                    Err(Error::Decode(DecodeError::SideMismatch))
                } else {
                    Ok(OrderBookView { asks: ask_book.asks, type_tags: tags, ..bid_book })
                },
            },
        },
    }
}

/// What an optional reference refers to.
pub open spec fn deref_option(j: Option<&Json>) -> Option<Json> {
    match j {
        Some(v) => Some(*v),
        None => None,
    }
}

/// Puts a book together from the snapshots of its sides, each of which may
/// be absent, and from the coin types of the book.
pub fn assemble_book(bids: Option<&Json>, asks: Option<&Json>, type_tags: Vec<String>) -> (r:
    Result<OrderBook, Error>)
    ensures
        match r {
            Ok(book) => assembled(
                deref_option(bids),
                deref_option(asks),
                type_tags@.map_values(|t: String| t@),
            ) == Ok::<OrderBookView, Error>(book@),
            Err(e) => assembled(
                deref_option(bids),
                deref_option(asks),
                type_tags@.map_values(|t: String| t@),
            ) == Err::<OrderBookView, Error>(e),
        },
{
    match (bids, asks) {
        (None, None) => Err(Error::NotFound),
        (Some(b), None) => match OrderBook::from_json(b) {
            Err(e) => Err(Error::Decode(e)),
            Ok(book) => {
                let empty: BTreeMap<u64, Vec<Order>> = BTreeMap::new();
                assert(side_view(empty@) =~= Map::<u64, Seq<OrderView>>::empty());
                Ok(
                    OrderBook {
                        id: book.id,
                        instrument: book.instrument,
                        bids: book.bids,
                        asks: empty,
                        type_tags,
                    },
                )
            },
        },
        (None, Some(a)) => match OrderBook::from_json(a) {
            Err(e) => Err(Error::Decode(e)),
            Ok(book) => {
                let empty: BTreeMap<u64, Vec<Order>> = BTreeMap::new();
                assert(side_view(empty@) =~= Map::<u64, Seq<OrderView>>::empty());
                Ok(
                    OrderBook {
                        id: book.id,
                        instrument: book.instrument,
                        bids: empty,
                        asks: book.asks,
                        type_tags,
                    },
                )
            },
        },
        (Some(b), Some(a)) => match OrderBook::from_json(b) {
            Err(e) => Err(Error::Decode(e)),
            Ok(bid_book) => match OrderBook::from_json(a) {
                Err(e) => Err(Error::Decode(e)),
                Ok(ask_book) => {
                    if bid_book.id != ask_book.id || bid_book.instrument != ask_book.instrument {
                        Err(Error::Decode(DecodeError::SideMismatch))
                    } else {
                        Ok(
                            OrderBook {
                                id: bid_book.id,
                                instrument: bid_book.instrument,
                                bids: bid_book.bids,
                                asks: ask_book.asks,
                                type_tags,
                            },
                        )
                    }
                },
            },
        },
    }
}

} // verus!
