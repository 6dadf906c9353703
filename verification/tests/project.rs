use laminar_sdk::error::Error;
use laminar_sdk::events::{
    AmendOrderEvent, CancelOrderEvent, CreateOrderBookEvent, FillEvent, LaminarEvent,
    PlaceOrderEvent,
};
use laminar_sdk::filter::{find_first, read_log, select, EventKey, FilterMode};
use laminar_sdk::json::{DecodeError, Json, Member};
use laminar_sdk::project::{project, EventLog, UnfilledRemaining};
use laminar_sdk::types::{Address, Id, Side, State, TimeInForce};

fn id(n: u64) -> Id {
    Id { creation_num: n, addr: Address { hi: 0, lo: 1 } }
}

fn place(order: u64, price: u64, size: u64) -> PlaceOrderEvent {
    PlaceOrderEvent {
        book_id: id(1),
        order_id: id(order),
        side: Side::Bid,
        price,
        size,
        time_in_force: TimeInForce::GoodTillCanceled,
        post_only: true,
        time: 1,
    }
}

fn amend(order: u64, price: u64, size: u64) -> AmendOrderEvent {
    AmendOrderEvent {
        book_id: id(1),
        order_id: id(order),
        amend_id: id(900),
        side: Side::Bid,
        price,
        size,
        time: 2,
    }
}

fn cancel(order: u64) -> CancelOrderEvent {
    CancelOrderEvent {
        book_id: id(1),
        order_id: id(order),
        cancel_id: id(901),
        side: Side::Bid,
        reason: 0,
        time: 3,
    }
}

fn fill(order: u64, remaining: u64) -> FillEvent {
    FillEvent {
        book_id: id(1),
        order_id: id(order),
        side: Side::Bid,
        price: 100,
        fill_size: 1,
        fee: 0,
        fee_rate: 0,
        time: 4,
        remaining_size: remaining,
        is_maker: true,
    }
}

fn log(mode: FilterMode, unfilled: UnfilledRemaining) -> EventLog {
    EventLog {
        places: vec![place(7, 100, 10), place(8, 200, 20)],
        amends: vec![amend(7, 101, 11), amend(8, 201, 21)],
        cancels: vec![cancel(8)],
        fills: vec![fill(7, 6), fill(8, 15), fill(7, 4), fill(8, 9)],
        mode,
        unfilled,
    }
}

fn text(s: &str) -> Json {
    Json::Text(s.to_string())
}

fn member(name: &str, value: Json) -> Member {
    Member { name: name.to_string(), value }
}

fn id_json(n: u64) -> Json {
    Json::Object(vec![member("creation_num", text(&n.to_string())), member("addr", text("0x1"))])
}

fn fill_json(order: u64, remaining: &str) -> Json {
    Json::Object(vec![
        member("book_id", id_json(1)),
        member("order_id", id_json(order)),
        member("side", Json::Number(0)),
        member("price", text("100")),
        member("fill_size", text("1")),
        member("fee", text("0")),
        member("fee_rate", text("0")),
        member("time", text("4")),
        member("remaining_size", text(remaining)),
        member("is_maker", Json::Bool(true)),
    ])
}

fn place_json(order: u64) -> Json {
    Json::Object(vec![
        member("book_id", id_json(1)),
        member("order_id", id_json(order)),
        member("side", text("1")),
        member("price", text("100")),
        member("size", text("10")),
        member("time_in_force", Json::Number(2)),
        member("post_only", Json::Bool(false)),
        member("time", text("5")),
    ])
}

#[test]
fn placed_and_once_filled_order_is_partially_filled() {
    let p = place(7, 100, 10);
    let o = project(id(7), &p, &vec![], None, vec![fill(7, 4)], UnfilledRemaining::Zero);
    assert_eq!(o.id, id(7));
    assert_eq!(o.side, Side::Bid);
    assert_eq!(o.price, 100);
    assert_eq!(o.size, 10);
    assert_eq!(o.remaining_size, 4);
    assert_eq!(o.state, State::PartiallyFilled);
    assert!(o.post_only);
    assert_eq!(o.fills, vec![fill(7, 4)]);
}

#[test]
fn cancelled_order_without_fills_is_closed() {
    let p = place(7, 100, 10);
    let c = cancel(7);
    let o = project(id(7), &p, &vec![], Some(&c), vec![], UnfilledRemaining::Zero);
    assert_eq!(o.state, State::Closed);
    assert_eq!(o.remaining_size, 0);
    let o = project(id(7), &p, &vec![], Some(&c), vec![], UnfilledRemaining::FullSize);
    assert_eq!(o.state, State::Closed);
    assert_eq!(o.remaining_size, 10);
}

#[test]
fn unfilled_order_under_either_default() {
    let p = place(7, 100, 10);
    let o = project(id(7), &p, &vec![], None, vec![], UnfilledRemaining::Zero);
    assert_eq!(o.remaining_size, 0);
    assert_eq!(o.state, State::Closed);
    let o = project(id(7), &p, &vec![], None, vec![], UnfilledRemaining::FullSize);
    assert_eq!(o.remaining_size, 10);
    assert_eq!(o.state, State::Open);
}

#[test]
fn unfilled_amended_order_has_its_amended_size_remaining() {
    let p = place(7, 100, 10);
    let o = project(
        id(7),
        &p,
        &vec![amend(7, 101, 11), amend(7, 102, 12)],
        None,
        vec![],
        UnfilledRemaining::FullSize,
    );
    assert_eq!(o.price, 102);
    assert_eq!(o.size, 12);
    assert_eq!(o.remaining_size, 12);
    assert_eq!(o.state, State::Open);
}

#[test]
fn last_amendment_gives_price_and_size() {
    let p = place(7, 100, 10);
    let o = project(
        id(7),
        &p,
        &vec![amend(7, 101, 11), amend(7, 99, 9)],
        None,
        vec![fill(7, 3)],
        UnfilledRemaining::Zero,
    );
    assert_eq!((o.price, o.size), (99, 9));
    assert_eq!(o.remaining_size, 3);
}

#[test]
fn last_fill_gives_what_remains() {
    let p = place(7, 100, 10);
    let o = project(
        id(7),
        &p,
        &vec![],
        None,
        vec![fill(7, 6), fill(7, 4), fill(7, 0)],
        UnfilledRemaining::Zero,
    );
    assert_eq!(o.remaining_size, 0);
    assert_eq!(o.state, State::Closed);
    assert_eq!(o.fills.len(), 3);
}

#[test]
fn one_more_fill_does_not_raise_what_remains() {
    let p = place(7, 100, 10);
    let before = project(id(7), &p, &vec![], None, vec![fill(7, 6)], UnfilledRemaining::Zero);
    let after =
        project(id(7), &p, &vec![], None, vec![fill(7, 6), fill(7, 4)], UnfilledRemaining::Zero);
    assert!(after.remaining_size <= before.remaining_size);
}

#[test]
fn fill_that_reports_more_raises_what_remains() {
    let p = place(7, 100, 10);
    let before = project(id(7), &p, &vec![], None, vec![], UnfilledRemaining::Zero);
    let after = project(id(7), &p, &vec![], None, vec![fill(7, 4)], UnfilledRemaining::Zero);
    assert_eq!(before.remaining_size, 0);
    assert_eq!(after.remaining_size, 4);
    assert_eq!(before.state, State::Closed);
    assert_eq!(after.state, State::PartiallyFilled);
}

#[test]
fn cancelled_order_stays_closed_under_fills() {
    let p = place(7, 100, 10);
    let c = cancel(7);
    let o = project(
        id(7),
        &p,
        &vec![],
        Some(&c),
        vec![fill(7, 6), fill(7, 4)],
        UnfilledRemaining::FullSize,
    );
    assert_eq!(o.state, State::Closed);
    assert_eq!(o.remaining_size, 4);
}

#[test]
fn order_from_the_logs_with_matching_selection() {
    let l = log(FilterMode::Matching, UnfilledRemaining::Zero);
    let o = l.get_order(&id(7)).unwrap();
    assert_eq!((o.price, o.size), (101, 11));
    assert_eq!(o.remaining_size, 4);
    assert_eq!(o.state, State::PartiallyFilled);
    assert_eq!(o.fills, vec![fill(7, 6), fill(7, 4)]);
    let o = l.get_order(&id(8)).unwrap();
    assert_eq!((o.price, o.size), (201, 21));
    assert_eq!(o.remaining_size, 9);
    assert_eq!(o.state, State::Closed);
}

#[test]
fn order_from_the_logs_with_everything_selected() {
    let l = log(FilterMode::Everything, UnfilledRemaining::Zero);
    let o = l.get_order(&id(7)).unwrap();
    assert_eq!((o.price, o.size), (201, 21));
    assert_eq!(o.remaining_size, 9);
    assert_eq!(o.state, State::PartiallyFilled);
    assert_eq!(o.fills.len(), 4);
    assert_eq!(o.side, Side::Bid);
}

#[test]
fn order_that_was_never_placed_is_not_found() {
    let l = log(FilterMode::Matching, UnfilledRemaining::Zero);
    assert_eq!(l.get_order(&id(9)).err(), Some(Error::NotFound));
    assert_eq!(l.get_place_event(&id(9)), Err(Error::NotFound));
    assert_eq!(l.get_amend_events(&id(9)), Err(Error::NotFound));
    assert_eq!(l.get_fill_events(&id(9)), Err(Error::NotFound));
    assert_eq!(l.get_cancel_event(&id(9)), None);
}

#[test]
fn events_of_an_order() {
    let l = log(FilterMode::Matching, UnfilledRemaining::Zero);
    assert_eq!(l.get_place_event(&id(8)), Ok(place(8, 200, 20)));
    assert_eq!(l.get_amend_events(&id(7)), Ok(vec![amend(7, 101, 11)]));
    assert_eq!(l.get_fill_events(&id(8)), Ok(vec![fill(8, 15), fill(8, 9)]));
    assert_eq!(l.get_cancel_event(&id(8)), Some(cancel(8)));
    assert_eq!(l.get_cancel_event(&id(7)), None);
}

#[test]
fn events_of_a_book() {
    let mut l = log(FilterMode::Matching, UnfilledRemaining::Zero);
    l.places.push(PlaceOrderEvent { book_id: id(2), ..place(9, 1, 1) });
    assert_eq!(l.fetch_all_place_events(&id(1)).len(), 2);
    assert_eq!(l.fetch_all_place_events(&id(2)).len(), 1);
    assert_eq!(l.fetch_all_amend_events(&id(1)).len(), 2);
    assert_eq!(l.fetch_all_cancel_events(&id(2)).len(), 0);
    assert_eq!(l.fetch_all_fill_events(&id(1)).len(), 4);
    l.mode = FilterMode::Everything;
    assert_eq!(l.fetch_all_place_events(&id(2)).len(), 3);
    assert_eq!(l.fetch_all_cancel_events(&id(2)).len(), 1);
}

#[test]
fn selection_keeps_the_order_of_the_log() {
    let fills = vec![fill(7, 6), fill(8, 15), fill(7, 4), fill(8, 9)];
    assert_eq!(
        select(&fills, EventKey::Order(id(8)), FilterMode::Matching),
        vec![fill(8, 15), fill(8, 9)]
    );
    assert_eq!(select(&fills, EventKey::Order(id(8)), FilterMode::Everything), fills);
    assert_eq!(select(&fills, EventKey::Any, FilterMode::Matching), fills);
    assert_eq!(select(&fills, EventKey::Book(id(3)), FilterMode::Matching), vec![]);
    assert_eq!(find_first(&fills, EventKey::Order(id(8))), Some(fill(8, 15)));
    assert_eq!(find_first(&fills, EventKey::Order(id(3))), None);
    assert_eq!(find_first(&fills, EventKey::Any), Some(fill(7, 6)));
}

#[test]
fn log_is_read_whole_or_not_at_all() {
    let items = vec![fill_json(7, "6"), fill_json(7, "4")];
    assert_eq!(read_log::<FillEvent>(&items), Ok(vec![fill(7, 6), fill(7, 4)]));
    let broken = vec![fill_json(7, "6"), fill_json(7, "four"), Json::Null];
    assert_eq!(read_log::<FillEvent>(&broken), Err(DecodeError::BadInteger));
    assert_eq!(read_log::<PlaceOrderEvent>(&vec![]), Ok(vec![]));
}

#[test]
fn place_event_is_read() {
    assert_eq!(
        PlaceOrderEvent::from_json(&place_json(7)),
        Ok(PlaceOrderEvent {
            book_id: id(1),
            order_id: id(7),
            side: Side::Ask,
            price: 100,
            size: 10,
            time_in_force: TimeInForce::FillOrKill,
            post_only: false,
            time: 5,
        })
    );
    assert_eq!(PlaceOrderEvent::from_json(&fill_json(7, "1")), Err(DecodeError::MissingField));
}

#[test]
fn amend_and_cancel_events_are_read() {
    let a = Json::Object(vec![
        member("book_id", id_json(1)),
        member("order_id", id_json(7)),
        member("amend_id", id_json(900)),
        member("side", Json::Number(0)),
        member("price", text("101")),
        member("size", text("11")),
        member("time", text("2")),
    ]);
    assert_eq!(AmendOrderEvent::from_json(&a), Ok(amend(7, 101, 11)));
    let c = Json::Object(vec![
        member("book_id", id_json(1)),
        member("order_id", id_json(7)),
        member("cancel_id", id_json(901)),
        member("side", Json::Number(0)),
        member("reason", Json::Number(0)),
        member("time", text("3")),
    ]);
    assert_eq!(CancelOrderEvent::from_json(&c), Ok(cancel(7)));
    assert_eq!(CancelOrderEvent::from_json(&a), Err(DecodeError::MissingField));
}

#[test]
fn event_of_whichever_kind_is_told_apart() {
    assert!(matches!(
        LaminarEvent::from_json(&fill_json(7, "4")),
        Ok(LaminarEvent::FillEvent(f)) if f == fill(7, 4)
    ));
    assert!(matches!(
        LaminarEvent::from_json(&place_json(7)),
        Ok(LaminarEvent::PlaceOrder(p)) if p.order_id == id(7)
    ));
    assert!(matches!(LaminarEvent::from_json(&Json::Null), Err(DecodeError::NoEventKind)));
    assert!(matches!(
        LaminarEvent::from_json(&fill_json(7, "x")),
        Err(DecodeError::NoEventKind)
    ));
}

#[test]
fn creation_event_is_read() {
    let info = |module: &str, name: &str| {
        Json::Object(vec![
            member("account_address", text("0x1")),
            member("module_name", text(module)),
            member("struct_name", text(name)),
        ])
    };
    let j = Json::Object(vec![
        member("book_id", id_json(1)),
        member("creator", text("0xc")),
        member("base", info("0x61", "0x41")),
        member("quote", info("0x62", "0x42")),
        member("price_decimals", Json::Number(2)),
        member("size_decimals", Json::Number(3)),
        member("min_size_amount", text("1000")),
        member("base_decimals", Json::Number(8)),
        member("quote_decimals", Json::Number(6)),
        member("time", text("77")),
    ]);
    let e = CreateOrderBookEvent::from_json(&j).unwrap();
    assert_eq!(e.book_id, id(1));
    assert_eq!(e.creator, Address { hi: 0, lo: 12 });
    assert_eq!(e.base.module_name, "a");
    assert_eq!(e.quote.struct_name, "B");
    assert_eq!(e.min_size_amount, 1000);
    assert_eq!(e.time, 77);
    assert!(matches!(LaminarEvent::from_json(&j), Ok(LaminarEvent::CreateOrderBook(_))));
}

#[test]
fn event_logs_have_their_names() {
    assert_eq!(CreateOrderBookEvent::event_store_field(), "create_orderbook_events");
    assert_eq!(PlaceOrderEvent::event_store_field(), "place_order_events");
    assert_eq!(AmendOrderEvent::event_store_field(), "amend_order_events");
    assert_eq!(CancelOrderEvent::event_store_field(), "cancel_order_events");
    assert_eq!(FillEvent::event_store_field(), "fill_events");
}
