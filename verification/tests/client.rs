use laminar_sdk::client::{EntryFunction, LaminarClient};
use laminar_sdk::error::Error;
use laminar_sdk::events::TypeInfo;
use laminar_sdk::json::{DecodeError, Json, Member};
use laminar_sdk::submit::{Action, Outcome, Phase};
use laminar_sdk::text::{find_text, split_once, stands_at};
use laminar_sdk::types::{Address, Id, Side, TimeInForce};
use laminar_sdk::wire::{u64_option_to_str, u64_to_str};
use laminar_sdk::error::RejectionKind;

fn client() -> LaminarClient {
    LaminarClient::connect(Address { hi: 0, lo: 0xabc }, Address { hi: 0, lo: 0x77 }, 4, 5)
}

fn owner() -> Address {
    Address { hi: 1, lo: 2 }
}

fn owner_bytes() -> Vec<u8> {
    let mut b = vec![0u8; 32];
    b[15] = 1;
    b[31] = 2;
    b
}

fn member(name: &str, value: Json) -> Member {
    Member { name: name.to_string(), value }
}

#[test]
fn integer_goes_out_as_decimal_text() {
    assert_eq!(u64_to_str(&0), "0");
    assert_eq!(u64_to_str(&1234567890), "1234567890");
    assert_eq!(u64_to_str(&u64::MAX), "18446744073709551615");
    assert_eq!(u64_option_to_str(&Some(17)), Some("17".to_string()));
    assert_eq!(u64_option_to_str(&None), None);
}

#[test]
fn integer_text_reads_back() {
    for n in [0u64, 9, 10, 99, 100, 4096, u64::MAX] {
        assert_eq!(laminar_sdk::wire::parse_u64(&u64_to_str(&n)), Some(n));
    }
}

#[test]
fn address_short_text() {
    assert_eq!(Address { hi: 0, lo: 0 }.to_hex_literal(), "0x0");
    assert_eq!(Address { hi: 0, lo: 1 }.to_hex_literal(), "0x1");
    assert_eq!(Address { hi: 0, lo: 0xABCDEF }.to_hex_literal(), "0xabcdef");
    assert_eq!(Address { hi: 1, lo: 0 }.to_hex_literal(), format!("0x1{}", "0".repeat(32)));
    assert_eq!(
        Address { hi: u128::MAX, lo: u128::MAX }.to_hex_literal(),
        format!("0x{}", "f".repeat(64))
    );
}

#[test]
fn address_short_text_reads_back() {
    for a in [
        Address { hi: 0, lo: 0 },
        Address { hi: 0, lo: 0x10 },
        Address { hi: 0x1234, lo: 0x5678 },
        Address { hi: u128::MAX, lo: 0 },
    ] {
        assert_eq!(Address::from_text(&a.to_hex_literal()), Some(a));
    }
}

#[test]
fn address_bytes_are_big_endian() {
    assert_eq!(owner().to_bcs(), owner_bytes());
    let mut expected = vec![0u8; 32];
    expected[0] = 0x12;
    expected[16] = 0x34;
    expected[31] = 0x56;
    let a = Address { hi: 0x12 << 120, lo: (0x34 << 120) | 0x56 };
    assert_eq!(a.to_bcs(), expected);
}

#[test]
fn id_text_puts_the_address_first() {
    let id = Id { creation_num: 42, addr: Address { hi: 0, lo: 0xa1 } };
    assert_eq!(id.to_text(), "0xa1:42");
}

#[test]
fn id_is_read_number_first() {
    assert_eq!(
        Id::from_str("42:0xa1"),
        Ok(Id { creation_num: 42, addr: Address { hi: 0, lo: 0xa1 } })
    );
    assert_eq!(Id::from_str("42"), Err(DecodeError::MissingSeparator));
    assert_eq!(Id::from_str("x:0xa1"), Err(DecodeError::BadInteger));
    assert_eq!(Id::from_str(":0xa1"), Err(DecodeError::BadInteger));
    assert_eq!(Id::from_str("42:zz"), Err(DecodeError::BadAddress));
    assert_eq!(Id::from_str("42:0x1:0x2"), Err(DecodeError::BadAddress));
    assert_eq!(Id::from_str("0xa1:42"), Err(DecodeError::BadInteger));
}

#[test]
fn type_info_text() {
    let info = TypeInfo {
        account_address: Address { hi: 0, lo: 1 },
        module_name: "aptos_coin".to_string(),
        struct_name: "AptosCoin".to_string(),
    };
    assert_eq!(info.to_text(), "0x1::aptos_coin::AptosCoin");
    let back = TypeInfo::from_str(&info.to_text()).unwrap();
    assert_eq!(back.account_address, info.account_address);
    assert_eq!(back.module_name, info.module_name);
    assert_eq!(back.struct_name, info.struct_name);
}

#[test]
fn type_info_from_text() {
    let info = TypeInfo::from_str("0xa::m::S::T").unwrap();
    assert_eq!(info.account_address, Address { hi: 0, lo: 10 });
    assert_eq!(info.module_name, "m");
    assert_eq!(info.struct_name, "S::T");
    let empty = TypeInfo::from_str("0xa::::").unwrap();
    assert_eq!(empty.module_name, "");
    assert_eq!(empty.struct_name, "");
    assert_eq!(TypeInfo::from_str("0xa").err(), Some(DecodeError::MissingSeparator));
    assert_eq!(TypeInfo::from_str("0xa::m").err(), Some(DecodeError::MissingSeparator));
    assert_eq!(TypeInfo::from_str("q::m::S").err(), Some(DecodeError::BadAddress));
    assert_eq!(TypeInfo::from_str("::m::S").err(), Some(DecodeError::BadAddress));
    assert_eq!(TypeInfo::from_str("0xa:m:S").err(), Some(DecodeError::MissingSeparator));
}

#[test]
fn text_is_found_and_split() {
    assert_eq!(find_text("a::b::c", "::"), Some(1));
    assert_eq!(find_text("a:b", "::"), None);
    assert_eq!(find_text("", "::"), None);
    assert_eq!(find_text(":", "::"), None);
    assert_eq!(find_text(":::", "::"), Some(0));
    assert_eq!(find_text("abc", ""), Some(0));
    assert_eq!(find_text("\u{e9}\u{e9}::x", "::"), Some(2));
    assert_eq!(split_once("a::b::c", "::"), Some(("a", "b::c")));
    assert_eq!(split_once("\u{e9}:\u{e8}", ":"), Some(("\u{e9}", "\u{e8}")));
    assert_eq!(split_once("abc", ":"), None);
    assert_eq!(split_once("abc:", ":"), Some(("abc", "")));
    assert!(stands_at("abcd", "cd", 2));
    assert!(!stands_at("abcd", "cd", 3));
    assert!(!stands_at("abcd", "cd", 1));
    assert!(!stands_at("ab", "abc", 0));
}

#[test]
fn text_split_agrees_with_std() {
    for hay in ["", ":", "::", "a::b", "a:b:c", "::a", "a::", "x:::y"] {
        for needle in [":", "::"] {
            assert_eq!(split_once(hay, needle), hay.split_once(needle));
            assert_eq!(find_text(hay, needle), hay.find(needle));
        }
    }
}

#[test]
fn client_knows_itself() {
    let mut c = client();
    assert_eq!(*c.laminar(), Address { hi: 0, lo: 0xabc });
    assert_eq!(*c.account(), Address { hi: 0, lo: 0x77 });
    assert_eq!(c.get_sequence_number(), 5);
    c.update_chain_id(9);
    assert_eq!(c.chain_id, 9);
    assert_eq!(c.sequence_number, 5);
}

#[test]
fn client_from_texts() {
    assert_eq!(LaminarClient::connect_with_strings("0xabc", "0x77", 4, 5), Ok(client()));
    assert_eq!(
        LaminarClient::connect_with_strings("abc!", "0x77", 4, 5),
        Err(Error::Decode(DecodeError::BadAddress))
    );
    assert_eq!(
        LaminarClient::connect_with_strings("0xabc", "", 4, 5),
        Err(Error::Decode(DecodeError::BadAddress))
    );
}

#[test]
fn client_takes_over_the_sequence_number_of_a_submission() {
    let mut c = client();
    let mut s = c.submitter();
    assert_eq!(s.phase, Phase::Building);
    assert_eq!(s.start(), Action::Submit { sequence_number: 5, max_gas_amount: 1_000_000 });
    s.step(Outcome::Rejected(RejectionKind::SequenceNumberTooOld));
    s.step(Outcome::SequenceNumber(8));
    c.record(&s);
    assert_eq!(c.sequence_number, 8);
    let stale = LaminarClient::connect(c.laminar, c.account, 4, 2).submitter();
    c.record(&stale);
    assert_eq!(c.sequence_number, 8);
}

fn check_call(call: &EntryFunction, function: &str, args: Vec<Vec<u8>>) {
    assert_eq!(call.module_address, Address { hi: 0, lo: 0xabc });
    assert_eq!(call.module_name, "book");
    assert_eq!(call.function, function);
    assert_eq!(call.type_args, vec!["0x1::a::A".to_string(), "0x1::b::B".to_string()]);
    assert_eq!(call.args, args);
}

#[test]
fn register_user_call() {
    let call = client().register_user_payload();
    assert_eq!(call.module_address, Address { hi: 0, lo: 0xabc });
    assert_eq!(call.module_name, "book");
    assert_eq!(call.function, "register_user");
    assert!(call.type_args.is_empty());
    assert!(call.args.is_empty());
}

#[test]
fn create_orderbook_call() {
    let call = client().create_orderbook_payload("0x1::a::A", "0x1::b::B", 2, 3, 258).unwrap();
    check_call(&call, "create_orderbook", vec![vec![2], vec![3], vec![2, 1, 0, 0, 0, 0, 0, 0]]);
}

#[test]
fn place_limit_order_call() {
    let call = client()
        .place_limit_order_payload(
            "0x1::a::A",
            "0x1::b::B",
            &owner(),
            Side::Ask,
            0x0102030405060708,
            u64::MAX,
            TimeInForce::FillOrKill,
            true,
        )
        .unwrap();
    check_call(
        &call,
        "place_limit_order",
        vec![
            owner_bytes(),
            vec![1],
            vec![8, 7, 6, 5, 4, 3, 2, 1],
            vec![255; 8],
            vec![2],
            vec![1],
        ],
    );
}

#[test]
fn place_market_order_call() {
    let call = client()
        .place_market_order_payload("0x1::a::A", "0x1::b::B", &owner(), Side::Bid, 7)
        .unwrap();
    check_call(
        &call,
        "place_market_order",
        vec![owner_bytes(), vec![0], vec![7, 0, 0, 0, 0, 0, 0, 0]],
    );
}

#[test]
fn amend_order_call() {
    let id = Id { creation_num: 513, addr: Address { hi: 0, lo: 9 } };
    let call = client()
        .amend_order_payload("0x1::a::A", "0x1::b::B", &owner(), &id, Side::Bid, 1, 2)
        .unwrap();
    check_call(
        &call,
        "amend_order",
        vec![
            owner_bytes(),
            vec![1, 2, 0, 0, 0, 0, 0, 0],
            vec![0],
            vec![1, 0, 0, 0, 0, 0, 0, 0],
            vec![2, 0, 0, 0, 0, 0, 0, 0],
        ],
    );
}

#[test]
fn cancel_order_call() {
    let id = Id { creation_num: 3, addr: Address { hi: 0, lo: 9 } };
    let call = client()
        .cancel_order_payload("0x1::a::A", "0x1::b::B", &owner(), &id, Side::Ask)
        .unwrap();
    check_call(&call, "cancel_order", vec![owner_bytes(), vec![3, 0, 0, 0, 0, 0, 0, 0], vec![1]]);
}

#[test]
fn register_for_coin_call() {
    let call = LaminarClient::register_for_coin("0x1::a::A").unwrap();
    assert_eq!(call.module_address, Address { hi: 0, lo: 1 });
    assert_eq!(call.module_name, "managed_coin");
    assert_eq!(call.function, "register");
    assert_eq!(call.type_args, vec!["0x1::a::A".to_string()]);
    assert!(call.args.is_empty());
}

#[test]
fn resource_names() {
    let c = client();
    assert_eq!(
        c.get_book_bids_type("0x1::a::A", "0x1::b::B"),
        "0xabc::book::OrderBookBids<0x1::a::A, 0x1::b::B>"
    );
    assert_eq!(
        c.get_book_asks_type("0x1::a::A", "0x1::b::B"),
        "0xabc::book::OrderBookAsks<0x1::a::A, 0x1::b::B>"
    );
    assert_eq!(c.event_store_type(), "0xabc::book::OrderBookStore");
    assert_eq!(LaminarClient::coin_info_type("0x1::a::A"), "0x1::coin::CoinInfo<0x1::a::A>");
    assert_eq!(LaminarClient::coin_store_type("0x1::a::A"), "0x1::coin::CoinStore<0x1::a::A>");
}

#[test]
fn coin_balance_is_read() {
    let store = Json::Object(vec![
        member("coin", Json::Object(vec![member("value", Json::Text("1500".to_string()))])),
        member("frozen", Json::Bool(false)),
    ]);
    assert_eq!(LaminarClient::get_coin_balance(&store), Ok(1500));
    let no_coin = Json::Object(vec![member("frozen", Json::Bool(false))]);
    assert_eq!(LaminarClient::get_coin_balance(&no_coin), Err(DecodeError::MissingField));
    let number = Json::Object(vec![member(
        "coin",
        Json::Object(vec![member("value", Json::Number(1500))]),
    )]);
    assert_eq!(LaminarClient::get_coin_balance(&number), Err(DecodeError::WrongType));
}

#[test]
fn book_is_fetched_with_its_coin_types() {
    let c = client();
    assert_eq!(c.fetch_orderbook("0x1::a::A", "0x1::b::B", None, None).err(), Some(Error::NotFound));
    let id = Json::Object(vec![
        member("creation_num", Json::Text("1".to_string())),
        member("addr", Json::Text("0x1".to_string())),
    ]);
    let instrument = Json::Object(vec![
        member("owner", Json::Text("0xa".to_string())),
        member("price_decimals", Json::Number(2)),
        member("size_decimals", Json::Number(3)),
        member("min_size_amount", Json::Text("1000".to_string())),
        member("base_decimals", Json::Number(8)),
        member("quote_decimals", Json::Number(6)),
    ]);
    let side = Json::Object(vec![
        member("nodes", Json::Array(vec![])),
        member("removed_nodes", Json::Array(vec![])),
    ]);
    let bids = Json::Object(vec![
        member("id", id),
        member("instrument", instrument),
        member("bids", side),
    ]);
    let book = c.fetch_orderbook("0x1::a::A", "0x1::b::B", Some(&bids), None).unwrap();
    assert_eq!(book.type_tags, vec!["0x1::a::A".to_string(), "0x1::b::B".to_string()]);
    assert!(book.bids.is_empty());
    assert!(book.asks.is_empty());
    assert_eq!(book.id.creation_num, 1);
}
