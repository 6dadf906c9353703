//! Decoding of single values and of the named entries of an object.

use crate::json::{DecodeError, find_member, Json, lookup, Member, same_text};
use crate::types::{Address, address_of_text};
use crate::wire::{decimal_u64, parse_u64};
use vstd::prelude::*;

verus! {

/// The value of the one entry named `name`.
pub open spec fn field(members: Seq<Member>, name: Seq<char>) -> Result<Json, DecodeError> {
    match lookup(members, name) {
        Ok(i) => Ok(members[i].value),
        Err(e) => Err(e),
    }
}

/// The integer that a decimal string value denotes.
pub open spec fn text_u64(j: Json) -> Result<u64, DecodeError> {
    match j {
        Json::Text(s) => match decimal_u64(s@) {
            Some(v) => Ok(v),
            None => Err(DecodeError::BadInteger),
        },
        _ => Err(DecodeError::WrongType),
    }
}

/// The small integer that a number value holds.
pub open spec fn number_u8(j: Json) -> Result<u8, DecodeError> {
    match j {
        Json::Number(n) => if n <= 255 {
            Ok(n as u8)
        } else {
            Err(DecodeError::BadInteger)
        },
        _ => Err(DecodeError::WrongType),
    }
}

/// The truth value that a value holds.
pub open spec fn flag(j: Json) -> Result<bool, DecodeError> {
    match j {
        Json::Bool(b) => Ok(b),
        _ => Err(DecodeError::WrongType),
    }
}

/// The address that a string value denotes.
pub open spec fn text_address(j: Json) -> Result<Address, DecodeError> {
    match j {
        Json::Text(s) => match address_of_text(s@) {
            Some(a) => Ok(a),
            None => Err(DecodeError::BadAddress),
        },
        _ => Err(DecodeError::WrongType),
    }
}

/// The number of a variant, given as a number or as its decimal string.
pub open spec fn variant_number(j: Json) -> Result<u64, DecodeError> {
    match j {
        Json::Number(n) => Ok(n),
        Json::Text(_) => text_u64(j),
        _ => Err(DecodeError::WrongType),
    }
}

/// The entries of an object value.
pub open spec fn object_members(j: Json) -> Result<Seq<Member>, DecodeError> {
    match j {
        Json::Object(m) => Ok(m@),
        _ => Err(DecodeError::WrongType),
    }
}

/// The items of an array value.
pub open spec fn array_items(j: Json) -> Result<Seq<Json>, DecodeError> {
    match j {
        Json::Array(a) => Ok(a@),
        _ => Err(DecodeError::WrongType),
    }
}

/// Looks up the one entry named `name`.
pub fn get_field<'a>(members: &'a Vec<Member>, name: &str) -> (r: Result<&'a Json, DecodeError>)
    ensures
        match r {
            Ok(v) => field(members@, name@) == Ok::<Json, DecodeError>(*v),
            Err(e) => field(members@, name@) == Err::<Json, DecodeError>(e),
        },
{
    find_member(members, name)
}

/// Reads an integer that travels as a decimal string.
pub fn deserialize_from_str(j: &Json) -> (r: Result<u64, DecodeError>)
    ensures
        r == text_u64(*j),
{
    match j {
        Json::Text(s) => match parse_u64(s.as_str()) {
            Some(v) => Ok(v),
            None => Err(DecodeError::BadInteger),
        },
        _ => Err(DecodeError::WrongType),
    }
}

/// Reads an integer between 0 and 255 that travels as a number.
pub fn read_number_u8(j: &Json) -> (r: Result<u8, DecodeError>)
    ensures
        r == number_u8(*j),
{
    match j {
        Json::Number(n) => if *n <= 255 {
            Ok(*n as u8)
        } else {
            Err(DecodeError::BadInteger)
        },
        _ => Err(DecodeError::WrongType),
    }
}

/// Reads a truth value.
pub fn read_flag(j: &Json) -> (r: Result<bool, DecodeError>)
    ensures
        r == flag(*j),
{
    match j {
        Json::Bool(b) => Ok(*b),
        _ => Err(DecodeError::WrongType),
    }
}

/// Reads an address that travels as a hexadecimal string.
pub fn read_text_address(j: &Json) -> (r: Result<Address, DecodeError>)
    ensures
        r == text_address(*j),
{
    match j {
        Json::Text(s) => match Address::from_text(s.as_str()) {
            Some(a) => Ok(a),
            None => Err(DecodeError::BadAddress),
        },
        _ => Err(DecodeError::WrongType),
    }
}

/// Reads the number of a variant, from a number or from its decimal string.
pub fn read_variant_number(j: &Json) -> (r: Result<u64, DecodeError>)
    ensures
        r == variant_number(*j),
{
    match j {
        Json::Number(n) => Ok(*n),
        Json::Text(_) => deserialize_from_str(j),
        _ => Err(DecodeError::WrongType),
    }
}

/// Takes the entries of an object.
pub fn read_object<'a>(j: &'a Json) -> (r: Result<&'a Vec<Member>, DecodeError>)
    ensures
        match r {
            Ok(m) => object_members(*j) == Ok::<Seq<Member>, DecodeError>(m@),
            Err(e) => object_members(*j) == Err::<Seq<Member>, DecodeError>(e),
        },
{
    match j {
        Json::Object(m) => Ok(m),
        _ => Err(DecodeError::WrongType),
    }
}

/// Takes the items of an array.
pub fn read_array<'a>(j: &'a Json) -> (r: Result<&'a Vec<Json>, DecodeError>)
    ensures
        match r {
            Ok(a) => array_items(*j) == Ok::<Seq<Json>, DecodeError>(a@),
            Err(e) => array_items(*j) == Err::<Seq<Json>, DecodeError>(e),
        },
{
    match j {
        Json::Array(a) => Ok(a),
        _ => Err(DecodeError::WrongType),
    }
}

/// The objects that admit no entries but those of their schema.
#[derive(Clone, Copy, Debug, PartialEq, Eq, Structural)]
pub enum Schema {
    /// A node of a book side: one price level.
    PriceLevel,
    /// One side of a book.
    BookSide,
    /// A book.
    Book,
    /// The name of a type.
    TypeInfo,
}

impl Schema {
    /// Whether the schema has an entry named `name`.
    pub open spec fn knows(self, name: Seq<char>) -> bool {
        match self {
            Schema::PriceLevel => name == "key"@ || name == "left"@ || name == "right"@ || name
                == "value"@,
            Schema::BookSide => name == "max"@ || name == "min"@ || name == "nodes"@ || name
                == "removed_nodes"@ || name == "root"@ || name == "single_splay"@,
            Schema::Book => name == "id"@ || name == "instrument"@ || name == "bids"@ || name
                == "asks"@ || name == "orders"@ || name == "signer_addr"@,
            Schema::TypeInfo => name == "account_address"@ || name == "module_name"@ || name
                == "struct_name"@,
        }
    }

    /// Tells whether the schema has an entry named `name`.
    pub fn has(&self, name: &str) -> (r: bool)
        ensures
            r == self.knows(name@),
    {
        match self {
            Schema::PriceLevel => same_text(name, "key") || same_text(name, "left") || same_text(
                name,
                "right",
            ) || same_text(name, "value"),
            Schema::BookSide => same_text(name, "max") || same_text(name, "min") || same_text(
                name,
                "nodes",
            ) || same_text(name, "removed_nodes") || same_text(name, "root") || same_text(
                name,
                "single_splay",
            ),
            Schema::Book => same_text(name, "id") || same_text(name, "instrument") || same_text(
                name,
                "bids",
            ) || same_text(name, "asks") || same_text(name, "orders") || same_text(
                name,
                "signer_addr",
            ),
            Schema::TypeInfo => same_text(name, "account_address") || same_text(
                name,
                "module_name",
            ) || same_text(name, "struct_name"),
        }
    }
}

/// Whether the schema knows every entry of `members`.
pub open spec fn all_known(members: Seq<Member>, schema: Schema) -> bool {
    forall|i: int| 0 <= i < members.len() ==> schema.knows(#[trigger] members[i].name@)
}

/// Tells whether the schema knows every entry of `members`.
pub fn check_known(members: &Vec<Member>, schema: Schema) -> (r: bool)
    ensures
        r == all_known(members@, schema),
{
    let mut i: usize = 0;
    while i < members.len()
        invariant
            0 <= i <= members@.len(),
            forall|k: int| 0 <= k < i ==> schema.knows(#[trigger] members@[k].name@),
        decreases members@.len() - i,
    {
        if !schema.has(members[i].name.as_str()) {
            return false;
        }
        i = i + 1;
    }
    true
}

/// The small integer in the entry named `name`.
pub open spec fn field_u8(members: Seq<Member>, name: Seq<char>) -> Result<u8, DecodeError> {
    match field(members, name) {
        Ok(v) => number_u8(v),
        Err(e) => Err(e),
    }
}

/// The integer in the entry named `name`, which holds its decimal string.
pub open spec fn field_u64(members: Seq<Member>, name: Seq<char>) -> Result<u64, DecodeError> {
    match field(members, name) {
        Ok(v) => text_u64(v),
        Err(e) => Err(e),
    }
}

/// The address in the entry named `name`.
pub open spec fn field_address(members: Seq<Member>, name: Seq<char>) -> Result<
    Address,
    DecodeError,
> {
    match field(members, name) {
        Ok(v) => text_address(v),
        Err(e) => Err(e),
    }
}

/// The truth value in the entry named `name`.
pub open spec fn field_flag(members: Seq<Member>, name: Seq<char>) -> Result<bool, DecodeError> {
    match field(members, name) {
        Ok(v) => flag(v),
        Err(e) => Err(e),
    }
}

/// Reads the small integer in the entry named `name`.
pub fn get_u8(members: &Vec<Member>, name: &str) -> (r: Result<u8, DecodeError>)
    ensures
        r == field_u8(members@, name@),
{
    read_number_u8(get_field(members, name)?)
}

/// Reads the integer in the entry named `name`.
pub fn get_u64(members: &Vec<Member>, name: &str) -> (r: Result<u64, DecodeError>)
    ensures
        r == field_u64(members@, name@),
{
    deserialize_from_str(get_field(members, name)?)
}

/// Reads the address in the entry named `name`.
pub fn get_address(members: &Vec<Member>, name: &str) -> (r: Result<Address, DecodeError>)
    ensures
        r == field_address(members@, name@),
{
    read_text_address(get_field(members, name)?)
}

/// Reads the truth value in the entry named `name`.
pub fn get_flag(members: &Vec<Member>, name: &str) -> (r: Result<bool, DecodeError>)
    ensures
        r == field_flag(members@, name@),
{
    read_flag(get_field(members, name)?)
}

} // verus!
