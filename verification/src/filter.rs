//! Selection from an event log. The ledger hands out the whole log of one
//! kind for an account; what belongs to one book or one order is picked out
//! here.

use crate::events::{AmendOrderEvent, CancelOrderEvent, FillEvent, PlaceOrderEvent};
use crate::json::{DecodeError, Json};
use crate::types::Id;
use vstd::prelude::*;

verus! {

/// An event that belongs to a book and to an order.
pub trait LoggedEvent: Copy {
    /// The book of the event.
    spec fn book_key(&self) -> Id;

    /// The order of the event.
    spec fn order_key(&self) -> Id;

    /// Tells the book of the event.
    fn book_id(&self) -> (r: Id)
        ensures
            r == self.book_key(),
    ;

    /// Tells the order of the event.
    fn order_id(&self) -> (r: Id)
        ensures
            r == self.order_key(),
    ;

    /// The event that a value of the log denotes.
    spec fn decoded(j: Json) -> Result<Self, DecodeError>;

    /// Reads an event from a value of the log.
    fn decode(j: &Json) -> (r: Result<Self, DecodeError>)
        ensures
            r == Self::decoded(*j),
    ;
}

impl LoggedEvent for PlaceOrderEvent {
    open spec fn book_key(&self) -> Id {
        self.book_id
    }

    open spec fn order_key(&self) -> Id {
        self.order_id
    }

    fn book_id(&self) -> (r: Id) {
        self.book_id
    }

    fn order_id(&self) -> (r: Id) {
        self.order_id
    }

    open spec fn decoded(j: Json) -> Result<Self, DecodeError> {
        PlaceOrderEvent::of_json(j)
    }

    fn decode(j: &Json) -> (r: Result<Self, DecodeError>) {
        PlaceOrderEvent::from_json(j)
    }
}

impl LoggedEvent for AmendOrderEvent {
    open spec fn book_key(&self) -> Id {
        self.book_id
    }

    open spec fn order_key(&self) -> Id {
        self.order_id
    }

    fn book_id(&self) -> (r: Id) {
        self.book_id
    }

    fn order_id(&self) -> (r: Id) {
        self.order_id
    }

    open spec fn decoded(j: Json) -> Result<Self, DecodeError> {
        AmendOrderEvent::of_json(j)
    }

    fn decode(j: &Json) -> (r: Result<Self, DecodeError>) {
        AmendOrderEvent::from_json(j)
    }
}

impl LoggedEvent for CancelOrderEvent {
    open spec fn book_key(&self) -> Id {
        self.book_id
    }

    open spec fn order_key(&self) -> Id {
        self.order_id
    }

    fn book_id(&self) -> (r: Id) {
        self.book_id
    }

    fn order_id(&self) -> (r: Id) {
        self.order_id
    }

    open spec fn decoded(j: Json) -> Result<Self, DecodeError> {
        CancelOrderEvent::of_json(j)
    }

    fn decode(j: &Json) -> (r: Result<Self, DecodeError>) {
        CancelOrderEvent::from_json(j)
    }
}

impl LoggedEvent for FillEvent {
    open spec fn book_key(&self) -> Id {
        self.book_id
    }

    open spec fn order_key(&self) -> Id {
        self.order_id
    }

    fn book_id(&self) -> (r: Id) {
        self.book_id
    }

    fn order_id(&self) -> (r: Id) {
        self.order_id
    }

    open spec fn decoded(j: Json) -> Result<Self, DecodeError> {
        FillEvent::of_json(j)
    }

    fn decode(j: &Json) -> (r: Result<Self, DecodeError>) {
        FillEvent::from_json(j)
    }
}

/// What a selection hands out.
#[derive(Clone, Copy, Debug, PartialEq, Eq, Structural)]
pub enum FilterMode {
    /// The events that match, in the order of the log.
    Matching,
    /// The whole log, whatever matches. The condition is still tried on
    /// every event. This is how the client behaved from the start, and some
    /// callers count on it.
    Everything,
}

/// What an event is matched by.
#[derive(Clone, Copy, Debug, PartialEq, Eq, Structural)]
pub enum EventKey {
    /// The book of the event.
    Book(Id),
    /// The order of the event.
    Order(Id),
    /// Nothing: every event matches.
    Any,
}

/// Whether the event matches the key.
pub open spec fn matches_key<E: LoggedEvent>(e: E, key: EventKey) -> bool {
    match key {
        EventKey::Book(id) => e.book_key() == id,
        EventKey::Order(id) => e.order_key() == id,
        EventKey::Any => true,
    }
}

/// The events of the log that match the key, in the order of the log.
pub open spec fn matching<E: LoggedEvent>(log: Seq<E>, key: EventKey) -> Seq<E>
    decreases log.len(),
{
    if log.len() == 0 {
        Seq::empty()
    } else if matches_key(log.last(), key) {
        matching(log.drop_last(), key).push(log.last())
    } else {
        matching(log.drop_last(), key)
    }
}

/// What a selection from the log hands out in the given mode.
pub open spec fn selected<E: LoggedEvent>(log: Seq<E>, key: EventKey, mode: FilterMode) -> Seq<E> {
    match mode {
        FilterMode::Matching => matching(log, key),
        FilterMode::Everything => log,
    }
}

/// The position of the first event of the log that matches the key; the
/// length of the log where none does.
pub open spec fn first_match<E: LoggedEvent>(log: Seq<E>, key: EventKey) -> int
    decreases log.len(),
{
    if log.len() == 0 {
        0
    } else if matches_key(log[0], key) {
        0
    } else {
        1 + first_match(log.drop_first(), key)
    }
}

/// The first event of the log that matches the key.
pub open spec fn first_matching<E: LoggedEvent>(log: Seq<E>, key: EventKey) -> Option<E> {
    if first_match(log, key) < log.len() {
        Some(log[first_match(log, key)])
    } else {
        None
    }
}

/// The first match lies within the log or at its end; it matches, and no
/// event before it does.
pub proof fn lemma_first_match<E: LoggedEvent>(log: Seq<E>, key: EventKey)
    ensures
        0 <= first_match(log, key) <= log.len(),
        first_match(log, key) < log.len() ==> matches_key(log[first_match(log, key)], key),
        forall|j: int| 0 <= j < first_match(log, key) ==> !matches_key(log[j], key),
    decreases log.len(),
{
    if log.len() > 0 && !matches_key(log[0], key) {
        let rest = log.drop_first();
        lemma_first_match(rest, key);
        assert forall|j: int| 0 <= j < first_match(log, key) implies !matches_key(log[j], key) by {
            if j > 0 {
                assert(rest[j - 1] == log[j]);
            }
        }
    }
}

/// Every selected event matches, and the events come in the order of the
/// log: the selection in the mode `Matching` is the log with the events that
/// do not match left out.
pub proof fn lemma_matching_all_match<E: LoggedEvent>(log: Seq<E>, key: EventKey)
    ensures
        matching(log, key).len() <= log.len(),
        forall|k: int|
            0 <= k < matching(log, key).len() ==> matches_key(#[trigger] matching(log, key)[k], key),
        forall|i: int|
            0 <= i < log.len() && matches_key(log[i], key) ==> matching(log, key).contains(log[i]),
    decreases log.len(),
{
    if log.len() > 0 {
        let front = log.drop_last();
        lemma_matching_all_match(front, key);
        let now = matching(log, key);
        assert forall|i: int| 0 <= i < log.len() && matches_key(log[i], key) implies now.contains(
            log[i],
        ) by {
            if i < log.len() - 1 {
                assert(front[i] == log[i]);
                let k = choose|k: int| 0 <= k < matching(front, key).len() && matching(front, key)[k]
                    == log[i];
                assert(now[k] == log[i]);
            } else {
                assert(now[now.len() - 1] == log[i]);
            }
        }
    }
}

/// Tells whether the event matches the key.
pub fn event_matches<E: LoggedEvent>(e: &E, key: EventKey) -> (r: bool)
    ensures
        r == matches_key(*e, key),
{
    match key {
        EventKey::Book(id) => e.book_id() == id,
        EventKey::Order(id) => e.order_id() == id,
        EventKey::Any => true,
    }
}

/// Selects from the log. In the mode `Matching` the result holds the events
/// that match the key; in the mode `Everything` it holds the whole log.
pub fn select<E: LoggedEvent>(log: &Vec<E>, key: EventKey, mode: FilterMode) -> (r: Vec<E>)
    ensures
        r@ == selected(log@, key, mode),
{
    let mut hits: Vec<E> = Vec::new();
    let mut all: Vec<E> = Vec::new();
    let mut i: usize = 0;
    assert(log@.subrange(0, 0) =~= Seq::<E>::empty());
    while i < log.len()
        invariant
            0 <= i <= log@.len(),
            hits@ == matching(log@.subrange(0, i as int), key),
            all@ == log@.subrange(0, i as int),
        decreases log@.len() - i,
    {
        let ghost next = log@.subrange(0, i + 1);
        proof {
            assert(next.drop_last() =~= log@.subrange(0, i as int));
            assert(next.last() == log@[i as int]);
        }
        let e = log[i];
        if event_matches(&e, key) {
            hits.push(e);
        }
        all.push(e);
        assert(all@ =~= next);
        i = i + 1;
    }
    assert(log@.subrange(0, log@.len() as int) =~= log@);
    match mode {
        FilterMode::Matching => hits,
        FilterMode::Everything => all,
    }
}

/// Finds the first event of the log that matches the key.
pub fn find_first<E: LoggedEvent>(log: &Vec<E>, key: EventKey) -> (r: Option<E>)
    ensures
        r == first_matching(log@, key),
{
    let mut i: usize = 0;
    proof {
        lemma_first_match(log@, key);
    }
    while i < log.len()
        invariant
            0 <= i <= log@.len(),
            forall|j: int| 0 <= j < i ==> !matches_key(log@[j], key),
            0 <= first_match(log@, key) <= log@.len(),
            first_match(log@, key) < log@.len() ==> matches_key(
                log@[first_match(log@, key)],
                key,
            ),
            forall|j: int| 0 <= j < first_match(log@, key) ==> !matches_key(log@[j], key),
        decreases log@.len() - i,
    {
        let e = log[i];
        if event_matches(&e, key) {
            assert(first_match(log@, key) == i) by {
                let f = first_match(log@, key);
                if f < i {
                    assert(matches_key(log@[f], key));
                } else if f > i {
                    assert(!matches_key(log@[i as int], key));
                }
            }
            return Some(e);
        }
        i = i + 1;
    }
    assert(first_match(log@, key) == log@.len()) by {
        let f = first_match(log@, key);
        if f < log@.len() {
            assert(matches_key(log@[f], key));
        }
    }
    None
}

/// The events that the values of a log denote, in the order of the log; the
/// first value at fault decides the error.
pub open spec fn log_of<E: LoggedEvent>(items: Seq<Json>) -> Result<Seq<E>, DecodeError>
    decreases items.len(),
{
    if items.len() == 0 {
        Ok(Seq::empty())
    } else {
        match log_of::<E>(items.drop_last()) {
            Err(e) => Err(e),
            Ok(front) => match E::decoded(items.last()) {
                Err(e) => Err(e),
                Ok(event) => Ok(front.push(event)),
            },
        }
    }
}

/// A fault among the first `k` values is the fault of the whole log.
pub proof fn lemma_log_fault_stays<E: LoggedEvent>(items: Seq<Json>, k: int)
    requires
        0 <= k <= items.len(),
        log_of::<E>(items.subrange(0, k)) is Err,
    ensures
        log_of::<E>(items) == log_of::<E>(items.subrange(0, k)),
    decreases items.len() - k,
{
    if k == items.len() {
        assert(items.subrange(0, k) =~= items);
    } else {
        let longer = items.subrange(0, k + 1);
        assert(longer.drop_last() =~= items.subrange(0, k));
        lemma_log_fault_stays::<E>(items, k + 1);
    }
}

/// Reads a whole log of one kind of event. Either every event comes out or
/// none.
pub fn read_log<E: LoggedEvent>(items: &Vec<Json>) -> (r: Result<Vec<E>, DecodeError>)
    ensures
        match r {
            Ok(log) => log_of::<E>(items@) == Ok::<Seq<E>, DecodeError>(log@),
            Err(e) => log_of::<E>(items@) == Err::<Seq<E>, DecodeError>(e),
        },
{
    let mut out: Vec<E> = Vec::new();
    let mut i: usize = 0;
    assert(items@.subrange(0, 0) =~= Seq::<Json>::empty());
    while i < items.len()
        invariant
            0 <= i <= items@.len(),
            log_of::<E>(items@.subrange(0, i as int)) == Ok::<Seq<E>, DecodeError>(out@),
        decreases items@.len() - i,
    {
        let ghost next = items@.subrange(0, i + 1);
        proof {
            assert(next.drop_last() =~= items@.subrange(0, i as int));
            assert(next.last() == items@[i as int]);
        }
        match E::decode(&items[i]) {
            Err(e) => {
                proof {
                    lemma_log_fault_stays::<E>(items@, i + 1);
                }
                return Err(e);
            },
            Ok(event) => {
                out.push(event);
            },
        }
        i = i + 1;
    }
    assert(items@.subrange(0, items@.len() as int) =~= items@);
    Ok(out)
}

} // verus!
