//! Identifiers and the small enumerations of an order.

use crate::fields::{
    deserialize_from_str, field, field_address, field_u64, field_u8, get_address, get_field,
    get_u64, get_u8, object_members, read_object, read_text_address, read_variant_number,
    text_address, text_u64, variant_number,
};
use crate::json::{DecodeError, Json, Member};
use crate::text::{split_at_first, split_once};
use crate::wire::{
    all_hex, be_bytes_u128, decimal_digits_of, decimal_u64, hex_number, parse_u64, u64_to_str,
};
use vstd::prelude::*;
use vstd::string::*;

verus! {

/// A 256-bit account address, held as its two 128-bit halves.
#[derive(Clone, Copy, Debug, PartialEq, Eq, Structural)]
pub struct Address {
    /// The sixteen most significant bytes.
    pub hi: u128,
    /// The sixteen least significant bytes.
    pub lo: u128,
}

/// Whether the text begins with `0x` or `0X`.
pub open spec fn has_hex_prefix(s: Seq<char>) -> bool {
    s.len() >= 2 && s[0] == '0' && (s[1] == 'x' || s[1] == 'X')
}

/// The digits of an address text: what follows the prefix, or the whole
/// text where it has no prefix.
pub open spec fn address_digits(s: Seq<char>) -> Seq<char> {
    if has_hex_prefix(s) {
        s.subrange(2, s.len() as int)
    } else {
        s
    }
}

/// Where the low half of an address begins among its digits.
pub open spec fn low_half_start(digits: Seq<char>) -> int {
    if digits.len() > 32 {
        digits.len() - 32
    } else {
        0
    }
}

/// The address that a text denotes: between 1 and 64 hexadecimal digits, in
/// either case, with or without a prefix. Short ones are read as if zeros
/// stood before them.
pub open spec fn address_of_text(s: Seq<char>) -> Option<Address> {
    let digits = address_digits(s);
    if 1 <= digits.len() <= 64 && all_hex(digits) {
        let cut = low_half_start(digits);
        Some(
            Address {
                hi: hex_number(digits.subrange(0, cut)) as u128,
                lo: hex_number(digits.subrange(cut, digits.len() as int)) as u128,
            },
        )
    } else {
        None
    }
}

/// Whether the digits of the text, once zeros are put before them to make
/// 64 characters, would begin with a prefix of their own. Such a text is no
/// address, since `x` is no digit.
pub open spec fn second_prefix(s: Seq<char>) -> bool {
    let digits = address_digits(s);
    digits.len() >= 63 && (digits[digits.len() - 63] == 'x' || digits[digits.len() - 63] == 'X')
}

/// Calls `AccountAddress::from_hex` of aptos-sdk and splits the 32 bytes of
/// the address into two big-endian halves. Trusted: the call succeeds
/// exactly on 1 to 64 hexadecimal digits, in either case, after an optional
/// prefix `0x` or `0X`, and the bytes are those of the digits with zeros put
/// before them. The call is not made on a text with a prefix of its own
/// among the padded digits: there the outside function takes off a second
/// prefix and then fails an internal length check instead of returning.
#[verifier::external_body]
fn address_from_hex(s: &str) -> (r: Option<Address>)
    requires
        !second_prefix(s@),
    ensures
        r == address_of_text(s@),
{
    match aptos_sdk::types::AccountAddress::from_hex(s) {
        Ok(a) => {
            let bytes = a.to_bytes();
            let mut hi = [0u8; 16];
            let mut lo = [0u8; 16];
            hi.copy_from_slice(&bytes[..16]);
            lo.copy_from_slice(&bytes[16..]);
            Some(Address { hi: u128::from_be_bytes(hi), lo: u128::from_be_bytes(lo) })
        },
        Err(_) => None,
    }
}

/// The character of the hexadecimal digit `d`, in lower case.
pub open spec fn lower_hex_char(d: nat) -> char {
    if d < 10 {
        (48 + d) as u8 as char
    } else {
        (87 + d) as u8 as char
    }
}

/// The hexadecimal digits of `n` in lower case, most significant first,
/// without zeros before them; of zero, the one digit `0`.
pub open spec fn hex_digits_of(n: nat) -> Seq<char>
    decreases n,
{
    if n < 16 {
        seq![lower_hex_char(n)]
    } else {
        hex_digits_of(n / 16).push(lower_hex_char(n % 16))
    }
}

/// The address as one number.
pub open spec fn address_value(a: Address) -> nat {
    (a.hi as nat) * 0x1_0000_0000_0000_0000_0000_0000_0000_0000 + a.lo as nat
}

/// The short text of an address: the prefix `0x` and the digits of its
/// value.
pub open spec fn short_text(a: Address) -> Seq<char> {
    seq!['0', 'x'] + hex_digits_of(address_value(a))
}

/// Calls `AccountAddress::to_short_string` of aptos-sdk on the address made
/// of the two halves in big-endian order. Trusted: the text is `0x` and the
/// lower-case hexadecimal digits of the address without zeros before them,
/// `0x0` for the address zero.
#[verifier::external_body]
fn address_short_string(a: Address) -> (r: String)
    ensures
        r@ == short_text(a),
{
    let mut bytes = [0u8; 32];
    bytes[..16].copy_from_slice(&a.hi.to_be_bytes());
    bytes[16..].copy_from_slice(&a.lo.to_be_bytes());
    aptos_sdk::types::AccountAddress::new(bytes).to_short_string()
}

/// The 32 bytes of an address, most significant first.
pub open spec fn address_bytes(a: Address) -> Seq<u8> {
    be_bytes_u128(a.hi) + be_bytes_u128(a.lo)
}

/// Calls `aptos_bcs::to_bytes` on the `AccountAddress` of aptos-sdk made of
/// the two halves in big-endian order. Trusted: the call succeeds and hands
/// out the 32 bytes of the address, with no length before them.
#[verifier::external_body]
fn bcs_address(a: Address) -> (r: Option<Vec<u8>>)
    ensures
        r is Some,
        r->Some_0@ == address_bytes(a),
{
    let mut bytes = [0u8; 32];
    bytes[..16].copy_from_slice(&a.hi.to_be_bytes());
    bytes[16..].copy_from_slice(&a.lo.to_be_bytes());
    aptos_sdk::aptos_bcs::to_bytes(&aptos_sdk::types::AccountAddress::new(bytes)).ok()
}

impl Address {
    /// The bytes of the address as an argument of a call.
    pub fn to_bcs(&self) -> (r: Vec<u8>)
        ensures
            r@ == address_bytes(*self),
    {
        match bcs_address(*self) {
            Some(bytes) => bytes,
            None => Vec::new(),
        }
    }

    /// The short text of the address.
    pub fn to_hex_literal(&self) -> (r: String)
        ensures
            r@ == short_text(*self),
    {
        address_short_string(*self)
    }

    /// Reads an address from its hexadecimal text, with or without a
    /// prefix.
    pub fn from_text(s: &str) -> (r: Option<Address>)
        ensures
            r == address_of_text(s@),
    {
        let n: usize = s.unicode_len();
        let start: usize = if n >= 2 && s.get_char(0) == '0' && (s.get_char(1) == 'x' || s.get_char(
            1,
        ) == 'X') {
            2
        } else {
            0
        };
        let ghost digits = address_digits(s@);
        assert(digits =~= s@.subrange(start as int, n as int));
        if n - start >= 63 {
            let c = s.get_char(n - 63);
            assert(c == digits[digits.len() - 63]);
            if c == 'x' || c == 'X' {
                assert(crate::wire::hex_digit(digits[digits.len() - 63]).is_none());
                return None;
            }
        }
        address_from_hex(s)
    }
}

/// Identifies an order or a book within the account that created it.
#[derive(Clone, Copy, Debug, PartialEq, Eq, Structural)]
pub struct Id {
    pub creation_num: u64,
    pub addr: Address,
}

/// The side of the book that an order rests on.
#[derive(Clone, Copy, Debug, PartialEq, Eq, Structural)]
pub enum Side {
    Bid,
    Ask,
}

/// How long an order stays in force, fixed when it is placed.
#[derive(Clone, Copy, Debug, PartialEq, Eq, Structural)]
pub enum TimeInForce {
    GoodTillCanceled,
    ImmediateOrCancel,
    FillOrKill,
}

/// Where an order stands in its life. `Closed` is final.
#[derive(Clone, Copy, Debug, PartialEq, Eq, Structural)]
pub enum State {
    Open,
    PartiallyFilled,
    Closed,
}

impl Side {
    /// The side that a variant number stands for: 0 is `Bid`, 1 is `Ask`.
    pub open spec fn of_number(v: u64) -> Result<Side, DecodeError> {
        if v == 0 {
            Ok(Side::Bid)
        } else if v == 1 {
            Ok(Side::Ask)
        } else {
            Err(DecodeError::BadVariant)
        }
    }

    /// The side that a value denotes.
    pub open spec fn of_json(j: Json) -> Result<Side, DecodeError> {
        match variant_number(j) {
            Ok(v) => Side::of_number(v),
            Err(e) => Err(e),
        }
    }

    /// The number that stands for this side.
    pub open spec fn code_of(self) -> u8 {
        match self {
            Side::Bid => 0,
            Side::Ask => 1,
        }
    }

    /// Tells the number that stands for this side.
    pub fn code(&self) -> (r: u8)
        ensures
            r == self.code_of(),
            Side::of_number(r as u64) == Ok::<Side, DecodeError>(*self),
    {
        match self {
            Side::Bid => 0,
            Side::Ask => 1,
        }
    }

    /// Reads a side from its variant number.
    pub fn from_number(v: u64) -> (r: Result<Side, DecodeError>)
        ensures
            r == Side::of_number(v),
    {
        if v == 0 {
            Ok(Side::Bid)
        } else if v == 1 {
            Ok(Side::Ask)
        } else {
            Err(DecodeError::BadVariant)
        }
    }

    /// Reads a side from a signed 16-bit column value.
    pub fn from_i16(value: i16) -> (r: Result<Side, DecodeError>)
        ensures
            value >= 0 ==> r == Side::of_number(value as u64),
            value < 0 ==> r == Err::<Side, DecodeError>(DecodeError::BadVariant),
    {
        if value < 0 {
            Err(DecodeError::BadVariant)
        } else {
            Side::from_number(value as u64)
        }
    }

    /// Reads a side from a number or from the decimal string of one.
    pub fn from_json(j: &Json) -> (r: Result<Side, DecodeError>)
        ensures
            r == Side::of_json(*j),
    {
        let v = read_variant_number(j)?;
        Side::from_number(v)
    }
}

impl TimeInForce {
    /// The policy that a variant number stands for: 0 is `GoodTillCanceled`,
    /// 1 is `ImmediateOrCancel`, 2 is `FillOrKill`.
    pub open spec fn of_number(v: u64) -> Result<TimeInForce, DecodeError> {
        if v == 0 {
            Ok(TimeInForce::GoodTillCanceled)
        } else if v == 1 {
            Ok(TimeInForce::ImmediateOrCancel)
        } else if v == 2 {
            Ok(TimeInForce::FillOrKill)
        } else {
            Err(DecodeError::BadVariant)
        }
    }

    /// The policy that a value denotes.
    pub open spec fn of_json(j: Json) -> Result<TimeInForce, DecodeError> {
        match variant_number(j) {
            Ok(v) => TimeInForce::of_number(v),
            Err(e) => Err(e),
        }
    }

    /// The number that stands for this policy.
    pub open spec fn code_of(self) -> u8 {
        match self {
            TimeInForce::GoodTillCanceled => 0,
            TimeInForce::ImmediateOrCancel => 1,
            TimeInForce::FillOrKill => 2,
        }
    }

    /// Tells the number that stands for this policy.
    pub fn code(&self) -> (r: u8)
        ensures
            r == self.code_of(),
            TimeInForce::of_number(r as u64) == Ok::<TimeInForce, DecodeError>(*self),
    {
        match self {
            TimeInForce::GoodTillCanceled => 0,
            TimeInForce::ImmediateOrCancel => 1,
            TimeInForce::FillOrKill => 2,
        }
    }

    /// Reads a policy from its variant number.
    pub fn from_number(v: u64) -> (r: Result<TimeInForce, DecodeError>)
        ensures
            r == TimeInForce::of_number(v),
    {
        if v == 0 {
            Ok(TimeInForce::GoodTillCanceled)
        } else if v == 1 {
            Ok(TimeInForce::ImmediateOrCancel)
        } else if v == 2 {
            Ok(TimeInForce::FillOrKill)
        } else {
            Err(DecodeError::BadVariant)
        }
    }

    /// Reads a policy from a signed 16-bit column value.
    pub fn from_i16(value: i16) -> (r: Result<TimeInForce, DecodeError>)
        ensures
            value >= 0 ==> r == TimeInForce::of_number(value as u64),
            value < 0 ==> r == Err::<TimeInForce, DecodeError>(DecodeError::BadVariant),
    {
        if value < 0 {
            Err(DecodeError::BadVariant)
        } else {
            TimeInForce::from_number(value as u64)
        }
    }

    /// Reads a policy from a number or from the decimal string of one.
    pub fn from_json(j: &Json) -> (r: Result<TimeInForce, DecodeError>)
        ensures
            r == TimeInForce::of_json(*j),
    {
        let v = read_variant_number(j)?;
        TimeInForce::from_number(v)
    }
}

impl State {
    /// The state that a variant number stands for: 0 is `Open`, 1 is
    /// `PartiallyFilled`, 2 is `Closed`.
    pub open spec fn of_number(v: u64) -> Result<State, DecodeError> {
        if v == 0 {
            Ok(State::Open)
        } else if v == 1 {
            Ok(State::PartiallyFilled)
        } else if v == 2 {
            Ok(State::Closed)
        } else {
            Err(DecodeError::BadVariant)
        }
    }

    /// The state that a value denotes.
    pub open spec fn of_json(j: Json) -> Result<State, DecodeError> {
        match variant_number(j) {
            Ok(v) => State::of_number(v),
            Err(e) => Err(e),
        }
    }

    /// The number that stands for this state.
    pub open spec fn code_of(self) -> u8 {
        match self {
            State::Open => 0,
            State::PartiallyFilled => 1,
            State::Closed => 2,
        }
    }

    /// Tells the number that stands for this state.
    pub fn code(&self) -> (r: u8)
        ensures
            r == self.code_of(),
            State::of_number(r as u64) == Ok::<State, DecodeError>(*self),
    {
        match self {
            State::Open => 0,
            State::PartiallyFilled => 1,
            State::Closed => 2,
        }
    }

    /// Reads a state from its variant number.
    pub fn from_number(v: u64) -> (r: Result<State, DecodeError>)
        ensures
            r == State::of_number(v),
    {
        if v == 0 {
            Ok(State::Open)
        } else if v == 1 {
            Ok(State::PartiallyFilled)
        } else if v == 2 {
            Ok(State::Closed)
        } else {
            Err(DecodeError::BadVariant)
        }
    }

    /// Reads a state from a signed 16-bit column value.
    pub fn from_i16(value: i16) -> (r: Result<State, DecodeError>)
        ensures
            value >= 0 ==> r == State::of_number(value as u64),
            value < 0 ==> r == Err::<State, DecodeError>(DecodeError::BadVariant),
    {
        if value < 0 {
            Err(DecodeError::BadVariant)
        } else {
            State::from_number(value as u64)
        }
    }

    /// Reads a state from a number or from the decimal string of one.
    pub fn from_json(j: &Json) -> (r: Result<State, DecodeError>)
        ensures
            r == State::of_json(*j),
    {
        let v = read_variant_number(j)?;
        State::from_number(v)
    }
}

impl Default for State {
    fn default() -> (r: State)
        ensures
            r == State::Open,
    {
        State::Open
    }
}

/// The text of an identifier: the short text of the address, a colon, and
/// the number in decimal.
pub open spec fn id_text(id: Id) -> Seq<char> {
    short_text(id.addr) + seq![':'] + decimal_digits_of(id.creation_num as nat)
}

/// The identifier that a text denotes: the number in decimal, a colon, and
/// the address. The text is split at its first colon.
pub open spec fn id_of_text(s: Seq<char>) -> Result<Id, DecodeError> {
    match split_at_first(s, seq![':']) {
        None => Err(DecodeError::MissingSeparator),
        Some((number, address)) => match decimal_u64(number) {
            None => Err(DecodeError::BadInteger),
            Some(n) => match address_of_text(address) {
                None => Err(DecodeError::BadAddress),
                Some(a) => Ok(Id { creation_num: n, addr: a }),
            },
        },
    }
}

impl Id {
    /// Writes the identifier as a text, the address first. Note that
    /// `from_str` reads the number first: the two are not each other's
    /// inverse.
    pub fn to_text(&self) -> (r: String)
        ensures
            r@ == id_text(*self),
    {
        proof {
            reveal_strlit(":");
        }
        let mut out = self.addr.to_hex_literal();
        let number = u64_to_str(&self.creation_num);
        out.append(":");
        assert(":"@ =~= seq![':']);
        out.append(number.as_str());
        out
    }

    /// Reads an identifier from a text, the number first.
    pub fn from_str(s: &str) -> (r: Result<Id, DecodeError>)
        ensures
            r == id_of_text(s@),
    {
        proof {
            reveal_strlit(":");
        }
        assert(":"@ =~= seq![':']);
        match split_once(s, ":") {
            None => Err(DecodeError::MissingSeparator),
            Some((number, address)) => match parse_u64(number) {
                None => Err(DecodeError::BadInteger),
                Some(n) => match Address::from_text(address) {
                    None => Err(DecodeError::BadAddress),
                    Some(a) => Ok(Id { creation_num: n, addr: a }),
                },
            },
        }
    }

    /// The identifier that an object with the entries `creation_num` and
    /// `addr` denotes. Other entries are passed over.
    pub open spec fn of_json(j: Json) -> Result<Id, DecodeError> {
        let members = object_members(j);
        if members is Err {
            Err(members->Err_0)
        } else {
            let num = field(members->Ok_0, "creation_num"@);
            let addr = field(members->Ok_0, "addr"@);
            if num is Err {
                Err(num->Err_0)
            } else if text_u64(num->Ok_0) is Err {
                Err(text_u64(num->Ok_0)->Err_0)
            } else if addr is Err {
                Err(addr->Err_0)
            } else if text_address(addr->Ok_0) is Err {
                Err(text_address(addr->Ok_0)->Err_0)
            } else {
                Ok(
                    Id {
                        creation_num: text_u64(num->Ok_0)->Ok_0,
                        addr: text_address(addr->Ok_0)->Ok_0,
                    },
                )
            }
        }
    }

    /// Reads an identifier.
    pub fn from_json(j: &Json) -> (r: Result<Id, DecodeError>)
        ensures
            r == Id::of_json(*j),
    {
        let members = read_object(j)?;
        let creation_num = deserialize_from_str(get_field(members, "creation_num")?)?;
        let addr = read_text_address(get_field(members, "addr")?)?;
        Ok(Id { creation_num, addr })
    }
}

/// The static terms of a book.
#[derive(Clone, Copy, Debug, PartialEq, Eq, Structural)]
pub struct Instrument {
    pub owner: Address,
    pub price_decimals: u8,
    pub size_decimals: u8,
    pub min_size_amount: u64,
    pub base_decimals: u8,
    pub quote_decimals: u8,
}

/// The identifier in the entry named `name`.
pub open spec fn field_id(members: Seq<Member>, name: Seq<char>) -> Result<Id, DecodeError> {
    match field(members, name) {
        Ok(v) => Id::of_json(v),
        Err(e) => Err(e),
    }
}

/// The side in the entry named `name`.
pub open spec fn field_side(members: Seq<Member>, name: Seq<char>) -> Result<Side, DecodeError> {
    match field(members, name) {
        Ok(v) => Side::of_json(v),
        Err(e) => Err(e),
    }
}

/// Reads the identifier in the entry named `name`.
pub fn get_id(members: &Vec<Member>, name: &str) -> (r: Result<Id, DecodeError>)
    ensures
        r == field_id(members@, name@),
{
    Id::from_json(get_field(members, name)?)
}

/// Reads the side in the entry named `name`.
pub fn get_side(members: &Vec<Member>, name: &str) -> (r: Result<Side, DecodeError>)
    ensures
        r == field_side(members@, name@),
{
    Side::from_json(get_field(members, name)?)
}

impl Instrument {
    /// The terms that an object denotes, entry by entry in the order of the
    /// fields; the first entry at fault decides the error.
    pub open spec fn of_json(j: Json) -> Result<Instrument, DecodeError> {
        let members = object_members(j);
        if members is Err {
            Err(members->Err_0)
        } else {
            let m = members->Ok_0;
            let owner = field_address(m, "owner"@);
            let price_decimals = field_u8(m, "price_decimals"@);
            let size_decimals = field_u8(m, "size_decimals"@);
            let min_size_amount = field_u64(m, "min_size_amount"@);
            let base_decimals = field_u8(m, "base_decimals"@);
            let quote_decimals = field_u8(m, "quote_decimals"@);
            if owner is Err {
                Err(owner->Err_0)
            } else if price_decimals is Err {
                Err(price_decimals->Err_0)
            } else if size_decimals is Err {
                Err(size_decimals->Err_0)
            } else if min_size_amount is Err {
                Err(min_size_amount->Err_0)
            } else if base_decimals is Err {
                Err(base_decimals->Err_0)
            } else if quote_decimals is Err {
                Err(quote_decimals->Err_0)
            } else {
                Ok(
                    Instrument {
                        owner: owner->Ok_0,
                        price_decimals: price_decimals->Ok_0,
                        size_decimals: size_decimals->Ok_0,
                        min_size_amount: min_size_amount->Ok_0,
                        base_decimals: base_decimals->Ok_0,
                        quote_decimals: quote_decimals->Ok_0,
                    },
                )
            }
        }
    }

    /// Reads the terms of a book.
    pub fn from_json(j: &Json) -> (r: Result<Instrument, DecodeError>)
        ensures
            r == Instrument::of_json(*j),
    {
        let m = read_object(j)?;
        let owner = get_address(m, "owner")?;
        let price_decimals = get_u8(m, "price_decimals")?;
        let size_decimals = get_u8(m, "size_decimals")?;
        let min_size_amount = get_u64(m, "min_size_amount")?;
        let base_decimals = get_u8(m, "base_decimals")?;
        let quote_decimals = get_u8(m, "quote_decimals")?;
        Ok(
            Instrument {
                owner,
                price_decimals,
                size_decimals,
                min_size_amount,
                base_decimals,
                quote_decimals,
            },
        )
    }
}

} // verus!
