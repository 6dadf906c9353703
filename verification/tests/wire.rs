use laminar_sdk::events::{read_name, TypeInfo};
use laminar_sdk::fields::{read_number_u8, deserialize_from_str};
use laminar_sdk::json::{DecodeError, Json, Member};
use laminar_sdk::types::{Address, Id, Instrument, Side, State, TimeInForce};
use laminar_sdk::wire::{parse_u64, read_hex_name};

fn text(s: &str) -> Json {
    Json::Text(s.to_string())
}

fn member(name: &str, value: Json) -> Member {
    Member { name: name.to_string(), value }
}

#[test]
fn parse_u64_reads_plain_digits() {
    assert_eq!(parse_u64("0"), Some(0));
    assert_eq!(parse_u64("100"), Some(100));
    assert_eq!(parse_u64("007"), Some(7));
}

#[test]
fn parse_u64_reads_the_largest_value() {
    assert_eq!(parse_u64("18446744073709551615"), Some(u64::MAX));
}

#[test]
fn parse_u64_rejects_one_past_the_largest_value() {
    assert_eq!(parse_u64("18446744073709551616"), None);
    assert_eq!(parse_u64("99999999999999999999999"), None);
}

#[test]
fn parse_u64_takes_a_leading_plus() {
    assert_eq!(parse_u64("+5"), Some(5));
    assert_eq!(parse_u64("+"), None);
    assert_eq!(parse_u64("++5"), None);
}

#[test]
fn parse_u64_rejects_what_is_no_number() {
    assert_eq!(parse_u64(""), None);
    assert_eq!(parse_u64("-1"), None);
    assert_eq!(parse_u64("12a"), None);
    assert_eq!(parse_u64(" 1"), None);
    assert_eq!(parse_u64("1.0"), None);
    assert_eq!(parse_u64("\u{ff11}"), None);
}

#[test]
fn parse_u64_agrees_with_std() {
    for s in ["0", "1", "+17", "42", "", "+", "x", "18446744073709551615", "18446744073709551616"] {
        assert_eq!(parse_u64(s), s.parse::<u64>().ok());
    }
}

#[test]
fn address_short_text_is_padded() {
    assert_eq!(Address::from_text("0x1"), Some(Address { hi: 0, lo: 1 }));
    assert_eq!(Address::from_text("0xAb"), Some(Address { hi: 0, lo: 0xab }));
    assert_eq!(Address::from_text("0X1f"), Some(Address { hi: 0, lo: 0x1f }));
    assert_eq!(Address::from_text("7"), Some(Address { hi: 0, lo: 7 }));
    assert_eq!(Address::from_text("0x0"), Some(Address { hi: 0, lo: 0 }));
}

#[test]
fn address_halves_split_at_thirty_two_digits() {
    let s = format!("0x1{}", "0".repeat(32));
    assert_eq!(Address::from_text(&s), Some(Address { hi: 1, lo: 0 }));
    let full = format!("0x{}{}", "f".repeat(32), "0".repeat(31) + "2");
    assert_eq!(Address::from_text(&full), Some(Address { hi: u128::MAX, lo: 2 }));
    let bare = format!("{}{}", "0".repeat(63), "7");
    assert_eq!(Address::from_text(&bare), Some(Address { hi: 0, lo: 7 }));
    let high = format!("0x123456789abcdef{}", "0".repeat(32));
    assert_eq!(Address::from_text(&high), Some(Address { hi: 0x123456789abcdef, lo: 0 }));
}

#[test]
fn address_needs_a_digit() {
    assert_eq!(Address::from_text(""), None);
    assert_eq!(Address::from_text("0x"), None);
    assert_eq!(Address::from_text("0X"), None);
}

#[test]
fn address_rejects_bad_text() {
    assert_eq!(Address::from_text("0xg"), None);
    assert_eq!(Address::from_text("x1"), None);
    assert_eq!(Address::from_text("0x 1"), None);
    assert_eq!(Address::from_text(&format!("0x{}", "1".repeat(65))), None);
    assert_eq!(Address::from_text(&"1".repeat(65)), None);
    assert_eq!(Address::from_text("0x\u{e9}"), None);
}

#[test]
fn address_with_a_second_prefix_is_rejected() {
    let digits = "1".repeat(62);
    assert_eq!(Address::from_text(&format!("0x0x{digits}")), None);
    assert_eq!(Address::from_text(&format!("0x0X{digits}")), None);
    assert_eq!(Address::from_text(&format!("0X0x{digits}")), None);
    assert_eq!(Address::from_text(&format!("0xx{digits}")), None);
    assert_eq!(Address::from_text(&format!("x{digits}")), None);
    assert_eq!(Address::from_text(&format!("X{digits}")), None);
    assert_eq!(Address::from_text(&format!("0x{digits}")), Address::from_text(&digits));
    assert_eq!(Address::from_text("0x0x1"), None);
}

#[test]
fn hex_name_is_decoded() {
    assert_eq!(read_hex_name("0x626f6f6b"), Ok("book".to_string()));
    assert_eq!(read_hex_name("626f6f6b"), Ok("book".to_string()));
    assert_eq!(read_hex_name("0x424F4F4B"), Ok("BOOK".to_string()));
    assert_eq!(read_hex_name("0x"), Ok(String::new()));
    assert_eq!(read_hex_name(""), Ok(String::new()));
}

#[test]
fn hex_name_drops_every_leading_prefix() {
    assert_eq!(read_hex_name("0x0x626f6f6b"), Ok("book".to_string()));
}

#[test]
fn hex_name_faults() {
    assert_eq!(read_hex_name("0x626"), Err(DecodeError::BadHex));
    assert_eq!(read_hex_name("0xzz"), Err(DecodeError::BadHex));
    assert_eq!(read_hex_name("0xff"), Err(DecodeError::BadUtf8));
    assert_eq!(read_hex_name("0x\u{e9}\u{e9}"), Err(DecodeError::BadHex));
}

#[test]
fn hex_name_of_two_byte_character() {
    assert_eq!(read_hex_name("0xc3a9"), Ok("\u{e9}".to_string()));
}

#[test]
fn name_value_must_be_text() {
    assert_eq!(read_name(&Json::Number(1)), Err(DecodeError::WrongType));
    assert_eq!(read_name(&text("0x41")), Ok("A".to_string()));
}

#[test]
fn integer_travels_as_text() {
    assert_eq!(deserialize_from_str(&text("12")), Ok(12));
    assert_eq!(deserialize_from_str(&text("twelve")), Err(DecodeError::BadInteger));
    assert_eq!(deserialize_from_str(&Json::Number(12)), Err(DecodeError::WrongType));
    assert_eq!(deserialize_from_str(&Json::Null), Err(DecodeError::WrongType));
}

#[test]
fn small_integer_travels_as_number() {
    assert_eq!(read_number_u8(&Json::Number(255)), Ok(255));
    assert_eq!(read_number_u8(&Json::Number(256)), Err(DecodeError::BadInteger));
    assert_eq!(read_number_u8(&text("3")), Err(DecodeError::WrongType));
    assert_eq!(read_number_u8(&Json::OtherNumber), Err(DecodeError::WrongType));
}

#[test]
fn side_from_number_and_text() {
    assert_eq!(Side::from_json(&Json::Number(0)), Ok(Side::Bid));
    assert_eq!(Side::from_json(&Json::Number(1)), Ok(Side::Ask));
    assert_eq!(Side::from_json(&text("1")), Ok(Side::Ask));
    assert_eq!(Side::from_json(&Json::Number(2)), Err(DecodeError::BadVariant));
    assert_eq!(Side::from_json(&text("bid")), Err(DecodeError::BadInteger));
    assert_eq!(Side::from_json(&Json::Bool(true)), Err(DecodeError::WrongType));
}

#[test]
fn time_in_force_from_number_and_text() {
    assert_eq!(TimeInForce::from_json(&Json::Number(0)), Ok(TimeInForce::GoodTillCanceled));
    assert_eq!(TimeInForce::from_json(&text("1")), Ok(TimeInForce::ImmediateOrCancel));
    assert_eq!(TimeInForce::from_json(&Json::Number(2)), Ok(TimeInForce::FillOrKill));
    assert_eq!(TimeInForce::from_json(&Json::Number(3)), Err(DecodeError::BadVariant));
}

#[test]
fn state_from_number_and_text() {
    assert_eq!(State::from_json(&Json::Number(0)), Ok(State::Open));
    assert_eq!(State::from_json(&text("1")), Ok(State::PartiallyFilled));
    assert_eq!(State::from_json(&Json::Number(2)), Ok(State::Closed));
    assert_eq!(State::from_json(&Json::Number(3)), Err(DecodeError::BadVariant));
    assert_eq!(State::default(), State::Open);
}

#[test]
fn variants_from_column_values() {
    assert_eq!(Side::from_i16(0), Ok(Side::Bid));
    assert_eq!(Side::from_i16(1), Ok(Side::Ask));
    assert_eq!(Side::from_i16(2), Err(DecodeError::BadVariant));
    assert_eq!(Side::from_i16(-1), Err(DecodeError::BadVariant));
    assert_eq!(TimeInForce::from_i16(2), Ok(TimeInForce::FillOrKill));
    assert_eq!(TimeInForce::from_i16(3), Err(DecodeError::BadVariant));
    assert_eq!(State::from_i16(1), Ok(State::PartiallyFilled));
    assert_eq!(State::from_i16(-5), Err(DecodeError::BadVariant));
}

#[test]
fn variant_codes_read_back() {
    for s in [Side::Bid, Side::Ask] {
        assert_eq!(Side::from_number(s.code() as u64), Ok(s));
    }
    for t in [TimeInForce::GoodTillCanceled, TimeInForce::ImmediateOrCancel, TimeInForce::FillOrKill] {
        assert_eq!(TimeInForce::from_number(t.code() as u64), Ok(t));
    }
    for s in [State::Open, State::PartiallyFilled, State::Closed] {
        assert_eq!(State::from_number(s.code() as u64), Ok(s));
    }
    assert_eq!(Side::Ask.code(), 1);
    assert_eq!(TimeInForce::FillOrKill.code(), 2);
    assert_eq!(State::Closed.code(), 2);
}

#[test]
fn id_is_read_from_its_two_entries() {
    let j = Json::Object(vec![
        member("creation_num", text("42")),
        member("addr", text("0x1")),
        member("extra", Json::Null),
    ]);
    assert_eq!(Id::from_json(&j), Ok(Id { creation_num: 42, addr: Address { hi: 0, lo: 1 } }));
}

#[test]
fn id_faults() {
    let no_addr = Json::Object(vec![member("creation_num", text("42"))]);
    assert_eq!(Id::from_json(&no_addr), Err(DecodeError::MissingField));
    let twice = Json::Object(vec![
        member("creation_num", text("42")),
        member("creation_num", text("43")),
        member("addr", text("0x1")),
    ]);
    assert_eq!(Id::from_json(&twice), Err(DecodeError::DuplicateField));
    let bad_addr = Json::Object(vec![
        member("creation_num", text("42")),
        member("addr", text("zz")),
    ]);
    assert_eq!(Id::from_json(&bad_addr), Err(DecodeError::BadAddress));
    let bad_num = Json::Object(vec![
        member("creation_num", Json::Number(42)),
        member("addr", text("0x1")),
    ]);
    assert_eq!(Id::from_json(&bad_num), Err(DecodeError::WrongType));
    assert_eq!(Id::from_json(&Json::Array(vec![])), Err(DecodeError::WrongType));
}

#[test]
fn instrument_is_read() {
    let j = Json::Object(vec![
        member("owner", text("0xa")),
        member("price_decimals", Json::Number(2)),
        member("size_decimals", Json::Number(3)),
        member("min_size_amount", text("1000")),
        member("base_decimals", Json::Number(8)),
        member("quote_decimals", Json::Number(6)),
    ]);
    assert_eq!(
        Instrument::from_json(&j),
        Ok(Instrument {
            owner: Address { hi: 0, lo: 10 },
            price_decimals: 2,
            size_decimals: 3,
            min_size_amount: 1000,
            base_decimals: 8,
            quote_decimals: 6,
        })
    );
}

#[test]
fn instrument_first_fault_in_field_order_decides() {
    let j = Json::Object(vec![
        member("quote_decimals", Json::Number(900)),
        member("owner", text("0xa")),
        member("price_decimals", text("2")),
        member("size_decimals", Json::Number(3)),
        member("min_size_amount", text("1000")),
        member("base_decimals", Json::Number(8)),
    ]);
    assert_eq!(Instrument::from_json(&j), Err(DecodeError::WrongType));
}

#[test]
fn type_info_is_read() {
    let j = Json::Object(vec![
        member("account_address", text("0x1")),
        member("module_name", text("0x6170746f735f636f696e")),
        member("struct_name", text("0x4170746f73436f696e")),
    ]);
    let info = TypeInfo::from_json(&j).unwrap();
    assert_eq!(info.account_address, Address { hi: 0, lo: 1 });
    assert_eq!(info.module_name, "aptos_coin");
    assert_eq!(info.struct_name, "AptosCoin");
}

#[test]
fn type_info_faults() {
    let unknown = Json::Object(vec![
        member("account_address", text("0x1")),
        member("module_name", text("0x61")),
        member("struct_name", text("0x41")),
        member("other", Json::Null),
    ]);
    assert_eq!(TypeInfo::from_json(&unknown).err(), Some(DecodeError::UnknownField));
    let bad_address = Json::Object(vec![
        member("account_address", text("0xzz")),
        member("module_name", text("0x61")),
        member("struct_name", text("0x41")),
    ]);
    assert_eq!(TypeInfo::from_json(&bad_address).err(), Some(DecodeError::BadAddress));
    let bad_struct = Json::Object(vec![
        member("account_address", text("0x1")),
        member("module_name", text("0x61")),
        member("struct_name", text("0x4")),
    ]);
    assert_eq!(TypeInfo::from_json(&bad_struct).err(), Some(DecodeError::BadHex));
    let missing = Json::Object(vec![
        member("account_address", text("0x1")),
        member("struct_name", text("0x41")),
    ]);
    assert_eq!(TypeInfo::from_json(&missing).err(), Some(DecodeError::MissingField));
}
