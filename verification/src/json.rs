//! The loosely structured values in which the ledger hands out snapshots and
//! events, and the error that malformed ones are answered with.

use vstd::prelude::*;

verus! {

/// One value of a ledger response.
#[derive(Debug)]
pub enum Json {
    Null,
    Bool(bool),
    /// A non-negative whole number.
    Number(u64),
    /// A number that is negative or has a fraction.
    OtherNumber,
    Text(String),
    Array(Vec<Json>),
    Object(Vec<Member>),
}

/// One named entry of an object.
#[derive(Debug)]
pub struct Member {
    pub name: String,
    pub value: Json,
}

/// Why a snapshot or an event could not be decoded.
#[derive(Clone, Copy, Debug, PartialEq, Eq, Structural)]
pub enum DecodeError {
    /// A value is of another kind than its place asks for.
    WrongType,
    /// An object holds an entry that its schema does not know.
    UnknownField,
    /// An object holds the same entry twice.
    DuplicateField,
    /// An object lacks an entry.
    MissingField,
    /// A string does not denote an unsigned 64-bit integer.
    BadInteger,
    /// A string does not denote an account address.
    BadAddress,
    /// A string is not a sequence of hexadecimal digit pairs.
    BadHex,
    /// Bytes are not the UTF-8 encoding of a string.
    BadUtf8,
    /// A number stands for no variant of the enumeration.
    BadVariant,
    /// A queue pointer leads outside the entries of its queue.
    BadIndex,
    /// A queue entry holds no order.
    EmptyOrderSlot,
    /// A queue does not reach its end within as many steps as it has entries.
    QueueCycle,
    /// A value matches none of the event kinds.
    NoEventKind,
    /// The two sides of a book differ in the identifier or in the terms.
    SideMismatch,
    /// A text lacks the separator between its parts.
    MissingSeparator,
}

/// How many entries of `members` are named `name`.
pub open spec fn count_named(members: Seq<Member>, name: Seq<char>) -> nat
    decreases members.len(),
{
    if members.len() == 0 {
        0
    } else {
        count_named(members.drop_last(), name) + if members.last().name@ == name {
            1nat
        } else {
            0nat
        }
    }
}

/// The position of the first entry named `name`; the length where there is none.
pub open spec fn first_named(members: Seq<Member>, name: Seq<char>) -> int
    decreases members.len(),
{
    if members.len() == 0 {
        0
    } else if members[0].name@ == name {
        0
    } else {
        1 + first_named(members.drop_first(), name)
    }
}

/// The outcome of looking up the one entry named `name`: the position of
/// the entry, or the error for none or several.
pub open spec fn lookup(members: Seq<Member>, name: Seq<char>) -> Result<int, DecodeError> {
    if count_named(members, name) == 0 {
        Err(DecodeError::MissingField)
    } else if count_named(members, name) > 1 {
        Err(DecodeError::DuplicateField)
    } else {
        Ok(first_named(members, name))
    }
}

/// The first entry named `name` lies within the entries, and bears the name,
/// whenever any entry does.
pub proof fn lemma_first_named(members: Seq<Member>, name: Seq<char>)
    ensures
        0 <= first_named(members, name) <= members.len(),
        first_named(members, name) < members.len() ==> members[first_named(
            members,
            name,
        )].name@ == name,
        forall|j: int| 0 <= j < first_named(members, name) ==> members[j].name@ != name,
    decreases members.len(),
{
    if members.len() > 0 && members[0].name@ != name {
        let rest = members.drop_first();
        lemma_first_named(rest, name);
        assert forall|j: int| 0 <= j < first_named(members, name) implies members[j].name@
            != name by {
            if j > 0 {
                assert(rest[j - 1] == members[j]);
            }
        }
    }
}

/// Compares two strings by their characters.
pub fn same_text(a: &str, b: &str) -> (r: bool)
    ensures
        r == (a@ == b@),
{
    let x = a.to_owned();
    let y = b.to_owned();
    x == y
}

/// Finds the one entry named `name`.
pub fn find_member<'a>(members: &'a Vec<Member>, name: &str) -> (r: Result<&'a Json, DecodeError>)
    ensures
        match lookup(members@, name@) {
            Ok(i) => 0 <= i < members@.len() && r == Ok::<&Json, DecodeError>(&members@[i].value),
            Err(e) => r == Err::<&Json, DecodeError>(e),
        },
{
    let mut found: Option<usize> = None;
    let mut count: usize = 0;
    let mut i: usize = 0;
    while i < members.len()
        invariant
            0 <= i <= members@.len(),
            count == count_named(members@.subrange(0, i as int), name@),
            count <= i,
            count == 0 ==> found.is_none(),
            count == 0 ==> forall|j: int| 0 <= j < i ==> members@[j].name@ != name@,
            count > 0 ==> found.is_some() && found.unwrap() < i && members@[found.unwrap() as int].name@
                == name@ && forall|j: int| 0 <= j < found.unwrap() ==> members@[j].name@ != name@,
        decreases members@.len() - i,
    {
        proof {
            let next = members@.subrange(0, i + 1);
            assert(next.drop_last() =~= members@.subrange(0, i as int));
            assert(next.last() == members@[i as int]);
        }
        if same_text(members[i].name.as_str(), name) {
            if count == 0 {
                found = Some(i);
            }
            count = count + 1;
        }
        i = i + 1;
    }
    proof {
        assert(members@.subrange(0, members@.len() as int) =~= members@);
        lemma_first_named(members@, name@);
    }
    if count == 0 {
        Err(DecodeError::MissingField)
    } else if count > 1 {
        Err(DecodeError::DuplicateField)
    } else {
        let k = found.unwrap();
        assert(first_named(members@, name@) == k) by {
            let f = first_named(members@, name@);
            if f < k {
                assert(members@[f].name@ == name@);
            } else if f > k {
                assert(members@[k as int].name@ == name@);
            }
        }
        Ok(&members[k].value)
    }
}

} // verus!
