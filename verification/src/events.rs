//! The events that the book contract emits, as the ledger's event log holds
//! them.

use crate::fields::{
    all_known, check_known, field, field_address, field_flag, field_u64, field_u8, get_address,
    get_field, get_flag, get_u64, get_u8, object_members, read_object, read_text_address,
    Schema, text_address,
};
use crate::json::{DecodeError, Json, Member};
use crate::text::{split_at_first, split_once};
use crate::types::{
    Address, address_of_text, field_id, field_side, get_id, get_side, Id, short_text, Side,
    TimeInForce,
};
use crate::wire::{name_of_hex, read_hex_name};
use vstd::prelude::*;

verus! {

/// An order was placed.
#[derive(Clone, Copy, Debug, PartialEq, Eq, Structural)]
pub struct PlaceOrderEvent {
    pub book_id: Id,
    pub order_id: Id,
    pub side: Side,
    pub price: u64,
    pub size: u64,
    pub time_in_force: TimeInForce,
    pub post_only: bool,
    pub time: u64,
}

/// The price or the size of an order was changed.
#[derive(Clone, Copy, Debug, PartialEq, Eq, Structural)]
pub struct AmendOrderEvent {
    pub book_id: Id,
    pub order_id: Id,
    pub amend_id: Id,
    pub side: Side,
    pub price: u64,
    pub size: u64,
    pub time: u64,
}

/// An order was cancelled.
#[derive(Clone, Copy, Debug, PartialEq, Eq, Structural)]
pub struct CancelOrderEvent {
    pub book_id: Id,
    pub order_id: Id,
    pub cancel_id: Id,
    pub side: Side,
    pub reason: u8,
    pub time: u64,
}

/// An order was matched, in part or in whole.
#[derive(Clone, Copy, Debug, PartialEq, Eq, Structural)]
pub struct FillEvent {
    pub book_id: Id,
    pub order_id: Id,
    pub side: Side,
    pub price: u64,
    pub fill_size: u64,
    pub fee: u64,
    pub fee_rate: u64,
    pub time: u64,
    pub remaining_size: u64,
    pub is_maker: bool,
}

/// The policy in the entry named `name`.
pub open spec fn field_time_in_force(members: Seq<Member>, name: Seq<char>) -> Result<
    TimeInForce,
    DecodeError,
> {
    match field(members, name) {
        Ok(v) => TimeInForce::of_json(v),
        Err(e) => Err(e),
    }
}

/// Reads the policy in the entry named `name`.
pub fn get_time_in_force(members: &Vec<Member>, name: &str) -> (r: Result<
    TimeInForce,
    DecodeError,
>)
    ensures
        r == field_time_in_force(members@, name@),
{
    TimeInForce::from_json(get_field(members, name)?)
}

impl PlaceOrderEvent {
    /// The name of the event log that holds the events of this kind.
    pub fn event_store_field() -> (r: &'static str)
        ensures
            r@ == "place_order_events"@,
    {
        "place_order_events"
    }

    /// The event that an object denotes, entry by entry in the order of the
    /// fields; the first entry at fault decides the error.
    pub open spec fn of_json(j: Json) -> Result<PlaceOrderEvent, DecodeError> {
        let members = object_members(j);
        if members is Err {
            Err(members->Err_0)
        } else {
            let m = members->Ok_0;
            let book_id = field_id(m, "book_id"@);
            let order_id = field_id(m, "order_id"@);
            let side = field_side(m, "side"@);
            let price = field_u64(m, "price"@);
            let size = field_u64(m, "size"@);
            let time_in_force = field_time_in_force(m, "time_in_force"@);
            let post_only = field_flag(m, "post_only"@);
            let time = field_u64(m, "time"@);
            if book_id is Err {
                Err(book_id->Err_0)
            } else if order_id is Err {
                Err(order_id->Err_0)
            } else if side is Err {
                Err(side->Err_0)
            } else if price is Err {
                Err(price->Err_0)
            } else if size is Err {
                Err(size->Err_0)
            } else if time_in_force is Err {
                Err(time_in_force->Err_0)
            } else if post_only is Err {
                Err(post_only->Err_0)
            } else if time is Err {
                Err(time->Err_0)
            } else {
                Ok(
                    PlaceOrderEvent {
                        book_id: book_id->Ok_0,
                        order_id: order_id->Ok_0,
                        side: side->Ok_0,
                        price: price->Ok_0,
                        size: size->Ok_0,
                        time_in_force: time_in_force->Ok_0,
                        post_only: post_only->Ok_0,
                        time: time->Ok_0,
                    },
                )
            }
        }
    }

    /// Reads a place event.
    pub fn from_json(j: &Json) -> (r: Result<PlaceOrderEvent, DecodeError>)
        ensures
            r == PlaceOrderEvent::of_json(*j),
    {
        let m = read_object(j)?;
        let book_id = get_id(m, "book_id")?;
        let order_id = get_id(m, "order_id")?;
        let side = get_side(m, "side")?;
        let price = get_u64(m, "price")?;
        let size = get_u64(m, "size")?;
        let time_in_force = get_time_in_force(m, "time_in_force")?;
        let post_only = get_flag(m, "post_only")?;
        let time = get_u64(m, "time")?;
        Ok(PlaceOrderEvent { book_id, order_id, side, price, size, time_in_force, post_only, time })
    }
}

impl AmendOrderEvent {
    /// The name of the event log that holds the events of this kind.
    pub fn event_store_field() -> (r: &'static str)
        ensures
            r@ == "amend_order_events"@,
    {
        "amend_order_events"
    }

    /// The event that an object denotes, entry by entry in the order of the
    /// fields; the first entry at fault decides the error.
    pub open spec fn of_json(j: Json) -> Result<AmendOrderEvent, DecodeError> {
        let members = object_members(j);
        if members is Err {
            Err(members->Err_0)
        } else {
            let m = members->Ok_0;
            let book_id = field_id(m, "book_id"@);
            let order_id = field_id(m, "order_id"@);
            let amend_id = field_id(m, "amend_id"@);
            let side = field_side(m, "side"@);
            let price = field_u64(m, "price"@);
            let size = field_u64(m, "size"@);
            let time = field_u64(m, "time"@);
            if book_id is Err {
                Err(book_id->Err_0)
            } else if order_id is Err {
                Err(order_id->Err_0)
            } else if amend_id is Err {
                Err(amend_id->Err_0)
            } else if side is Err {
                Err(side->Err_0)
            } else if price is Err {
                Err(price->Err_0)
            } else if size is Err {
                Err(size->Err_0)
            } else if time is Err {
                Err(time->Err_0)
            } else {
                Ok(
                    AmendOrderEvent {
                        book_id: book_id->Ok_0,
                        order_id: order_id->Ok_0,
                        amend_id: amend_id->Ok_0,
                        side: side->Ok_0,
                        price: price->Ok_0,
                        size: size->Ok_0,
                        time: time->Ok_0,
                    },
                )
            }
        }
    }

    /// Reads an amend event.
    pub fn from_json(j: &Json) -> (r: Result<AmendOrderEvent, DecodeError>)
        ensures
            r == AmendOrderEvent::of_json(*j),
    {
        let m = read_object(j)?;
        let book_id = get_id(m, "book_id")?;
        let order_id = get_id(m, "order_id")?;
        let amend_id = get_id(m, "amend_id")?;
        let side = get_side(m, "side")?;
        let price = get_u64(m, "price")?;
        let size = get_u64(m, "size")?;
        let time = get_u64(m, "time")?;
        Ok(AmendOrderEvent { book_id, order_id, amend_id, side, price, size, time })
    }
}

impl CancelOrderEvent {
    /// The name of the event log that holds the events of this kind.
    pub fn event_store_field() -> (r: &'static str)
        ensures
            r@ == "cancel_order_events"@,
    {
        "cancel_order_events"
    }

    /// The event that an object denotes, entry by entry in the order of the
    /// fields; the first entry at fault decides the error.
    pub open spec fn of_json(j: Json) -> Result<CancelOrderEvent, DecodeError> {
        let members = object_members(j);
        if members is Err {
            Err(members->Err_0)
        } else {
            let m = members->Ok_0;
            let book_id = field_id(m, "book_id"@);
            let order_id = field_id(m, "order_id"@);
            let cancel_id = field_id(m, "cancel_id"@);
            let side = field_side(m, "side"@);
            let reason = field_u8(m, "reason"@);
            let time = field_u64(m, "time"@);
            if book_id is Err {
                Err(book_id->Err_0)
            } else if order_id is Err {
                Err(order_id->Err_0)
            } else if cancel_id is Err {
                Err(cancel_id->Err_0)
            } else if side is Err {
                Err(side->Err_0)
            } else if reason is Err {
                Err(reason->Err_0)
            } else if time is Err {
                Err(time->Err_0)
            } else {
                Ok(
                    CancelOrderEvent {
                        book_id: book_id->Ok_0,
                        order_id: order_id->Ok_0,
                        cancel_id: cancel_id->Ok_0,
                        side: side->Ok_0,
                        reason: reason->Ok_0,
                        time: time->Ok_0,
                    },
                )
            }
        }
    }

    /// Reads a cancel event.
    pub fn from_json(j: &Json) -> (r: Result<CancelOrderEvent, DecodeError>)
        ensures
            r == CancelOrderEvent::of_json(*j),
    {
        let m = read_object(j)?;
        let book_id = get_id(m, "book_id")?;
        let order_id = get_id(m, "order_id")?;
        let cancel_id = get_id(m, "cancel_id")?;
        let side = get_side(m, "side")?;
        let reason = get_u8(m, "reason")?;
        let time = get_u64(m, "time")?;
        Ok(CancelOrderEvent { book_id, order_id, cancel_id, side, reason, time })
    }
}

impl FillEvent {
    /// The name of the event log that holds the events of this kind.
    pub fn event_store_field() -> (r: &'static str)
        ensures
            r@ == "fill_events"@,
    {
        "fill_events"
    }

    /// The event that an object denotes, entry by entry in the order of the
    /// fields; the first entry at fault decides the error.
    pub open spec fn of_json(j: Json) -> Result<FillEvent, DecodeError> {
        let members = object_members(j);
        if members is Err {
            Err(members->Err_0)
        } else {
            let m = members->Ok_0;
            let book_id = field_id(m, "book_id"@);
            let order_id = field_id(m, "order_id"@);
            let side = field_side(m, "side"@);
            let price = field_u64(m, "price"@);
            let fill_size = field_u64(m, "fill_size"@);
            let fee = field_u64(m, "fee"@);
            let fee_rate = field_u64(m, "fee_rate"@);
            let time = field_u64(m, "time"@);
            let remaining_size = field_u64(m, "remaining_size"@);
            let is_maker = field_flag(m, "is_maker"@);
            if book_id is Err {
                Err(book_id->Err_0)
            } else if order_id is Err {
                Err(order_id->Err_0)
            } else if side is Err {
                Err(side->Err_0)
            } else if price is Err {
                Err(price->Err_0)
            } else if fill_size is Err {
                Err(fill_size->Err_0)
            } else if fee is Err {
                Err(fee->Err_0)
            } else if fee_rate is Err {
                Err(fee_rate->Err_0)
            } else if time is Err {
                Err(time->Err_0)
            } else if remaining_size is Err {
                Err(remaining_size->Err_0)
            } else if is_maker is Err {
                Err(is_maker->Err_0)
            } else {
                Ok(
                    FillEvent {
                        book_id: book_id->Ok_0,
                        order_id: order_id->Ok_0,
                        side: side->Ok_0,
                        price: price->Ok_0,
                        fill_size: fill_size->Ok_0,
                        fee: fee->Ok_0,
                        fee_rate: fee_rate->Ok_0,
                        time: time->Ok_0,
                        remaining_size: remaining_size->Ok_0,
                        is_maker: is_maker->Ok_0,
                    },
                )
            }
        }
    }

    /// Reads a fill event.
    pub fn from_json(j: &Json) -> (r: Result<FillEvent, DecodeError>)
        ensures
            r == FillEvent::of_json(*j),
    {
        let m = read_object(j)?;
        let book_id = get_id(m, "book_id")?;
        let order_id = get_id(m, "order_id")?;
        let side = get_side(m, "side")?;
        let price = get_u64(m, "price")?;
        let fill_size = get_u64(m, "fill_size")?;
        let fee = get_u64(m, "fee")?;
        let fee_rate = get_u64(m, "fee_rate")?;
        let time = get_u64(m, "time")?;
        let remaining_size = get_u64(m, "remaining_size")?;
        let is_maker = get_flag(m, "is_maker")?;
        Ok(
            FillEvent {
                book_id,
                order_id,
                side,
                price,
                fill_size,
                fee,
                fee_rate,
                time,
                remaining_size,
                is_maker,
            },
        )
    }
}

/// The name of a type of the ledger: the account that holds its module, the
/// module and the struct.
#[derive(Debug)]
pub struct TypeInfo {
    pub account_address: Address,
    pub module_name: String,
    pub struct_name: String,
}

/// What the name of a type holds, as a mathematical value.
pub struct TypeInfoView {
    pub account_address: Address,
    pub module_name: Seq<char>,
    pub struct_name: Seq<char>,
}

impl View for TypeInfo {
    type V = TypeInfoView;

    open spec fn view(&self) -> TypeInfoView {
        TypeInfoView {
            account_address: self.account_address,
            module_name: self.module_name@,
            struct_name: self.struct_name@,
        }
    }
}

/// The name that a string value spells in hexadecimal.
pub open spec fn hex_name(j: Json) -> Result<Seq<char>, DecodeError> {
    match j {
        Json::Text(s) => name_of_hex(s@),
        _ => Err(DecodeError::WrongType),
    }
}

/// Reads a name from the string value that spells it in hexadecimal.
pub fn read_name(j: &Json) -> (r: Result<String, DecodeError>)
    ensures
        match r {
            Ok(name) => hex_name(*j) == Ok::<Seq<char>, DecodeError>(name@),
            Err(e) => hex_name(*j) == Err::<Seq<char>, DecodeError>(e),
        },
{
    match j {
        Json::Text(s) => read_hex_name(s.as_str()),
        _ => Err(DecodeError::WrongType),
    }
}

/// The text of a type name: the short text of the address, the module and
/// the struct, with `::` between them.
pub open spec fn type_info_text(info: TypeInfoView) -> Seq<char> {
    short_text(info.account_address) + seq![':', ':'] + info.module_name + seq![':', ':']
        + info.struct_name
}

/// The type name that a text denotes: the address, the module and the
/// struct, split at the first `::` and at the next. What follows the second
/// is the struct, whatever it holds.
pub open spec fn type_info_of_text(s: Seq<char>) -> Result<TypeInfoView, DecodeError> {
    match split_at_first(s, seq![':', ':']) {
        None => Err(DecodeError::MissingSeparator),
        Some((address, rest)) => match address_of_text(address) {
            None => Err(DecodeError::BadAddress),
            Some(a) => match split_at_first(rest, seq![':', ':']) {
                None => Err(DecodeError::MissingSeparator),
                Some((module, name)) => Ok(
                    TypeInfoView { account_address: a, module_name: module, struct_name: name },
                ),
            },
        },
    }
}

impl TypeInfo {
    /// Writes the type name as a text.
    pub fn to_text(&self) -> (r: String)
        ensures
            r@ == type_info_text(self@),
    {
        proof {
            reveal_strlit("::");
        }
        assert("::"@ =~= seq![':', ':']);
        let mut out = self.account_address.to_hex_literal();
        out.append("::");
        out.append(self.module_name.as_str());
        out.append("::");
        out.append(self.struct_name.as_str());
        out
    }

    /// Reads a type name from a text.
    pub fn from_str(s: &str) -> (r: Result<TypeInfo, DecodeError>)
        ensures
            match r {
                Ok(info) => type_info_of_text(s@) == Ok::<TypeInfoView, DecodeError>(info@),
                Err(e) => type_info_of_text(s@) == Err::<TypeInfoView, DecodeError>(e),
            },
    {
        proof {
            reveal_strlit("::");
        }
        assert("::"@ =~= seq![':', ':']);
        match split_once(s, "::") {
            None => Err(DecodeError::MissingSeparator),
            Some((address, rest)) => match Address::from_text(address) {
                None => Err(DecodeError::BadAddress),
                Some(a) => match split_once(rest, "::") {
                    None => Err(DecodeError::MissingSeparator),
                    Some((module, name)) => Ok(
                        TypeInfo {
                            account_address: a,
                            module_name: module.to_owned(),
                            struct_name: name.to_owned(),
                        },
                    ),
                },
            },
        }
    }

    /// The type name that an object denotes: the entries `account_address`,
    /// `module_name` and `struct_name` and no others, the address and the
    /// two names in hexadecimal. Of several faults the first
    /// in this order decides the error: the kind of the value, an unknown
    /// entry, and the three entries in the order given.
    pub open spec fn of_json(j: Json) -> Result<TypeInfoView, DecodeError> {
        let members = object_members(j);
        if members is Err {
            Err(members->Err_0)
        } else if !all_known(members->Ok_0, Schema::TypeInfo) {
            Err(DecodeError::UnknownField)
        } else {
            let m = members->Ok_0;
            let address = field(m, "account_address"@);
            let module = field(m, "module_name"@);
            let name = field(m, "struct_name"@);
            if address is Err {
                Err(address->Err_0)
            } else if text_address(address->Ok_0) is Err {
                Err(text_address(address->Ok_0)->Err_0)
            } else if module is Err {
                Err(module->Err_0)
            } else if hex_name(module->Ok_0) is Err {
                Err(hex_name(module->Ok_0)->Err_0)
            } else if name is Err {
                Err(name->Err_0)
            } else if hex_name(name->Ok_0) is Err {
                Err(hex_name(name->Ok_0)->Err_0)
            } else {
                Ok(
                    TypeInfoView {
                        account_address: text_address(address->Ok_0)->Ok_0,
                        module_name: hex_name(module->Ok_0)->Ok_0,
                        struct_name: hex_name(name->Ok_0)->Ok_0,
                    },
                )
            }
        }
    }

    /// Reads the name of a type.
    pub fn from_json(j: &Json) -> (r: Result<TypeInfo, DecodeError>)
        ensures
            match r {
                Ok(info) => TypeInfo::of_json(*j) == Ok::<TypeInfoView, DecodeError>(info@),
                Err(e) => TypeInfo::of_json(*j) == Err::<TypeInfoView, DecodeError>(e),
            },
    {
        let m = read_object(j)?;
        if !check_known(m, Schema::TypeInfo) {
            return Err(DecodeError::UnknownField);
        }
        let account_address = read_text_address(get_field(m, "account_address")?)?;
        let module_name = read_name(get_field(m, "module_name")?)?;
        let struct_name = read_name(get_field(m, "struct_name")?)?;
        Ok(TypeInfo { account_address, module_name, struct_name })
    }
}

/// A book was created.
#[derive(Debug)]
pub struct CreateOrderBookEvent {
    pub book_id: Id,
    pub creator: Address,
    pub base: TypeInfo,
    pub quote: TypeInfo,
    pub price_decimals: u8,
    pub size_decimals: u8,
    pub min_size_amount: u64,
    pub base_decimals: u8,
    pub quote_decimals: u8,
    pub time: u64,
}

/// What a creation event holds, as a mathematical value.
pub struct CreateOrderBookEventView {
    pub book_id: Id,
    pub creator: Address,
    pub base: TypeInfoView,
    pub quote: TypeInfoView,
    pub price_decimals: u8,
    pub size_decimals: u8,
    pub min_size_amount: u64,
    pub base_decimals: u8,
    pub quote_decimals: u8,
    pub time: u64,
}

impl View for CreateOrderBookEvent {
    type V = CreateOrderBookEventView;

    open spec fn view(&self) -> CreateOrderBookEventView {
        CreateOrderBookEventView {
            book_id: self.book_id,
            creator: self.creator,
            base: self.base@,
            quote: self.quote@,
            price_decimals: self.price_decimals,
            size_decimals: self.size_decimals,
            min_size_amount: self.min_size_amount,
            base_decimals: self.base_decimals,
            quote_decimals: self.quote_decimals,
            time: self.time,
        }
    }
}

/// The type name in the entry named `name`.
pub open spec fn field_type_info(members: Seq<Member>, name: Seq<char>) -> Result<
    TypeInfoView,
    DecodeError,
> {
    match field(members, name) {
        Ok(v) => TypeInfo::of_json(v),
        Err(e) => Err(e),
    }
}

/// Reads the type name in the entry named `name`.
pub fn get_type_info(members: &Vec<Member>, name: &str) -> (r: Result<TypeInfo, DecodeError>)
    ensures
        match r {
            Ok(info) => field_type_info(members@, name@) == Ok::<TypeInfoView, DecodeError>(info@),
            Err(e) => field_type_info(members@, name@) == Err::<TypeInfoView, DecodeError>(e),
        },
{
    TypeInfo::from_json(get_field(members, name)?)
}

impl CreateOrderBookEvent {
    /// The name of the event log that holds the events of this kind.
    pub fn event_store_field() -> (r: &'static str)
        ensures
            r@ == "create_orderbook_events"@,
    {
        "create_orderbook_events"
    }

    /// The event that an object denotes, entry by entry in the order of the
    /// fields; the first entry at fault decides the error.
    pub open spec fn of_json(j: Json) -> Result<CreateOrderBookEventView, DecodeError> {
        let members = object_members(j);
        if members is Err {
            Err(members->Err_0)
        } else {
            let m = members->Ok_0;
            let book_id = field_id(m, "book_id"@);
            let creator = field_address(m, "creator"@);
            let base = field_type_info(m, "base"@);
            let quote = field_type_info(m, "quote"@);
            let price_decimals = field_u8(m, "price_decimals"@);
            let size_decimals = field_u8(m, "size_decimals"@);
            let min_size_amount = field_u64(m, "min_size_amount"@);
            let base_decimals = field_u8(m, "base_decimals"@);
            let quote_decimals = field_u8(m, "quote_decimals"@);
            let time = field_u64(m, "time"@);
            if book_id is Err {
                Err(book_id->Err_0)
            } else if creator is Err {
                Err(creator->Err_0)
            } else if base is Err {
                Err(base->Err_0)
            } else if quote is Err {
                Err(quote->Err_0)
            } else if price_decimals is Err {
                Err(price_decimals->Err_0)
            } else if size_decimals is Err {
                Err(size_decimals->Err_0)
            } else if min_size_amount is Err {
                Err(min_size_amount->Err_0)
            } else if base_decimals is Err {
                Err(base_decimals->Err_0)
            } else if quote_decimals is Err {
                Err(quote_decimals->Err_0)
            } else if time is Err {
                Err(time->Err_0)
            } else {
                Ok(
                    CreateOrderBookEventView {
                        book_id: book_id->Ok_0,
                        creator: creator->Ok_0,
                        base: base->Ok_0,
                        quote: quote->Ok_0,
                        price_decimals: price_decimals->Ok_0,
                        size_decimals: size_decimals->Ok_0,
                        min_size_amount: min_size_amount->Ok_0,
                        base_decimals: base_decimals->Ok_0,
                        quote_decimals: quote_decimals->Ok_0,
                        time: time->Ok_0,
                    },
                )
            }
        }
    }

    /// Reads a creation event.
    pub fn from_json(j: &Json) -> (r: Result<CreateOrderBookEvent, DecodeError>)
        ensures
            match r {
                Ok(event) => CreateOrderBookEvent::of_json(*j) == Ok::<
                    CreateOrderBookEventView,
                    DecodeError,
                >(event@),
                Err(e) => CreateOrderBookEvent::of_json(*j) == Err::<
                    CreateOrderBookEventView,
                    DecodeError,
                >(e),
            },
    {
        let m = read_object(j)?;
        let book_id = get_id(m, "book_id")?;
        let creator = get_address(m, "creator")?;
        let base = get_type_info(m, "base")?;
        let quote = get_type_info(m, "quote")?;
        let price_decimals = get_u8(m, "price_decimals")?;
        let size_decimals = get_u8(m, "size_decimals")?;
        let min_size_amount = get_u64(m, "min_size_amount")?;
        let base_decimals = get_u8(m, "base_decimals")?;
        let quote_decimals = get_u8(m, "quote_decimals")?;
        let time = get_u64(m, "time")?;
        Ok(
            CreateOrderBookEvent {
                book_id,
                creator,
                base,
                quote,
                price_decimals,
                size_decimals,
                min_size_amount,
                base_decimals,
                quote_decimals,
                time,
            },
        )
    }
}

/// An event of the book contract, of whichever kind.
#[derive(Debug)]
pub enum LaminarEvent {
    CreateOrderBook(CreateOrderBookEvent),
    PlaceOrder(PlaceOrderEvent),
    AmendOrder(AmendOrderEvent),
    CancelOrder(CancelOrderEvent),
    FillEvent(FillEvent),
}

/// What an event of whichever kind holds, as a mathematical value.
pub enum LaminarEventView {
    CreateOrderBook(CreateOrderBookEventView),
    PlaceOrder(PlaceOrderEvent),
    AmendOrder(AmendOrderEvent),
    CancelOrder(CancelOrderEvent),
    FillEvent(FillEvent),
}

impl View for LaminarEvent {
    type V = LaminarEventView;

    open spec fn view(&self) -> LaminarEventView {
        match self {
            LaminarEvent::CreateOrderBook(e) => LaminarEventView::CreateOrderBook(e@),
            LaminarEvent::PlaceOrder(e) => LaminarEventView::PlaceOrder(*e),
            LaminarEvent::AmendOrder(e) => LaminarEventView::AmendOrder(*e),
            LaminarEvent::CancelOrder(e) => LaminarEventView::CancelOrder(*e),
            LaminarEvent::FillEvent(e) => LaminarEventView::FillEvent(*e),
        }
    }
}

impl LaminarEvent {
    /// The event that a value denotes: that of the first kind, in the order
    /// creation, place, amend, cancel, fill, as which the value can be read.
    pub open spec fn of_json(j: Json) -> Result<LaminarEventView, DecodeError> {
        if CreateOrderBookEvent::of_json(j) is Ok {
            Ok(LaminarEventView::CreateOrderBook(CreateOrderBookEvent::of_json(j)->Ok_0))
        } else if PlaceOrderEvent::of_json(j) is Ok {
            Ok(LaminarEventView::PlaceOrder(PlaceOrderEvent::of_json(j)->Ok_0))
        } else if AmendOrderEvent::of_json(j) is Ok {
            Ok(LaminarEventView::AmendOrder(AmendOrderEvent::of_json(j)->Ok_0))
        } else if CancelOrderEvent::of_json(j) is Ok {
            Ok(LaminarEventView::CancelOrder(CancelOrderEvent::of_json(j)->Ok_0))
        } else if FillEvent::of_json(j) is Ok {
            Ok(LaminarEventView::FillEvent(FillEvent::of_json(j)->Ok_0))
        } else {
            Err(DecodeError::NoEventKind)
        }
    }

    /// Reads an event of whichever kind.
    pub fn from_json(j: &Json) -> (r: Result<LaminarEvent, DecodeError>)
        ensures
            match r {
                Ok(event) => LaminarEvent::of_json(*j) == Ok::<LaminarEventView, DecodeError>(
                    event@,
                ),
                Err(e) => LaminarEvent::of_json(*j) == Err::<LaminarEventView, DecodeError>(e),
            },
    {
        if let Ok(e) = CreateOrderBookEvent::from_json(j) {
            return Ok(LaminarEvent::CreateOrderBook(e));
        }
        if let Ok(e) = PlaceOrderEvent::from_json(j) {
            return Ok(LaminarEvent::PlaceOrder(e));
        }
        if let Ok(e) = AmendOrderEvent::from_json(j) {
            return Ok(LaminarEvent::AmendOrder(e));
        }
        if let Ok(e) = CancelOrderEvent::from_json(j) {
            return Ok(LaminarEvent::CancelOrder(e));
        }
        if let Ok(e) = FillEvent::from_json(j) {
            return Ok(LaminarEvent::FillEvent(e));
        }
        Err(DecodeError::NoEventKind)
    }
}

} // verus!
