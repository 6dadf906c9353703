//! The decisions of the submission protocol. A call is built with the local
//! sequence number, signed and submitted. A rejection that a fresh sequence
//! number may cure is answered by bringing the local number up to date and
//! trying again, ten attempts at most. The caller does the outside work:
//! it performs each action and reports what came of it.

use crate::error::{Error, RejectionKind};
use crate::events::{LaminarEvent, LaminarEventView};
use crate::json::{DecodeError, Json};
use crate::types::Address;
use vstd::prelude::*;

verus! {

/// The number of attempts that one call is given.
pub const SUBMIT_ATTEMPTS: u8 = 10;

/// The most gas that a call may use.
pub const MAX_GAS_AMOUNT: u64 = 1_000_000;

/// Where a submission stands.
#[derive(Clone, Copy, Debug, PartialEq, Eq, Structural)]
pub enum Phase {
    /// Nothing has been submitted yet.
    Building,
    /// A signed call is with the ledger, which has not answered.
    Submitted,
    /// The ledger rejected the call in the given way; the sequence number
    /// of the account is being fetched.
    Rejected(RejectionKind),
    /// The ledger accepted the call, which is not final yet.
    Accepted,
    /// The call is final.
    Done,
    /// The submission has failed.
    Failed,
}

/// What the outside reports.
#[derive(Clone, Copy, Debug, PartialEq, Eq, Structural)]
pub enum Outcome {
    /// The ledger accepted the call.
    Accepted,
    /// The ledger rejected the call.
    Rejected(RejectionKind),
    /// The ledger told the sequence number of the account.
    SequenceNumber(u64),
    /// The call is final; `user_transaction` tells whether what became
    /// final is a transaction of a user.
    Finalized { user_transaction: bool },
}

/// What the caller is to do next.
#[derive(Clone, Copy, Debug, PartialEq, Eq, Structural)]
pub enum Action {
    /// Build the call with this sequence number and this gas limit, sign
    /// and submit it.
    Submit { sequence_number: u64, max_gas_amount: u64 },
    /// Fetch the sequence number of the account from the ledger.
    FetchSequenceNumber,
    /// Wait until the accepted call is final.
    AwaitFinality,
    /// Hand out the final transaction.
    Succeed,
    /// Give up with this error.
    Fail(Error),
}

/// The state of one submission.
#[derive(Clone, Copy, Debug, PartialEq, Eq, Structural)]
pub struct Submitter {
    /// The local sequence number.
    pub sequence_number: u64,
    /// The attempts made so far.
    pub attempts: u8,
    pub phase: Phase,
}

/// The local sequence number after a rejection: the one the ledger tells,
/// but never less than one past the local one, which may still be in flight.
pub open spec fn resynced(local: u64, fetched: u64) -> u64 {
    let bumped = if local < u64::MAX {
        (local + 1) as u64
    } else {
        local
    };
    if fetched >= bumped {
        fetched
    } else {
        bumped
    }
}

/// Brings the local sequence number up to date after a rejection.
pub fn resync(local: u64, fetched: u64) -> (r: u64)
    ensures
        r == resynced(local, fetched),
        r >= local,
        r >= fetched,
        local < u64::MAX ==> r > local,
{
    let bumped: u64 = if local < u64::MAX {
        local + 1
    } else {
        local
    };
    if fetched >= bumped {
        fetched
    } else {
        bumped
    }
}

impl Submitter {
    /// Whether the state is one that a submission can be in.
    pub open spec fn wf(&self) -> bool {
        &&& self.attempts <= SUBMIT_ATTEMPTS
        &&& (self.phase == Phase::Building ==> self.attempts == 0)
        &&& (self.phase == Phase::Submitted || self.phase is Rejected || self.phase
            == Phase::Accepted || self.phase == Phase::Done ==> self.attempts >= 1)
    }

    /// The state that follows when `outcome` is reported in the state
    /// `self`, and the action that it asks for.
    ///
    /// An acceptance leads to the wait for finality. A rejection that a
    /// fresh sequence number may cure leads to the fetch of that number, any
    /// other rejection to failure at once. The fetched number brings the
    /// local one up to date, on the last attempt as well; then the call is
    /// submitted again, or, where the attempts are spent, the submission
    /// fails with the rejection of the last attempt. A final transaction of
    /// a user is success, a final one of another kind is a failure. A report
    /// that does not answer the action last asked for ends the submission
    /// with the error of a spent budget.
    pub open spec fn next(self, outcome: Outcome) -> (Submitter, Action) {
        match (self.phase, outcome) {
            (Phase::Submitted, Outcome::Accepted) => (
                Submitter { phase: Phase::Accepted, ..self },
                Action::AwaitFinality,
            ),
            (Phase::Submitted, Outcome::Rejected(kind)) => if kind.retryable() {
                (Submitter { phase: Phase::Rejected(kind), ..self }, Action::FetchSequenceNumber)
            } else {
                (Submitter { phase: Phase::Failed, ..self }, Action::Fail(Error::Rejected(kind)))
            },
            (Phase::Rejected(kind), Outcome::SequenceNumber(fetched)) => {
                let number = resynced(self.sequence_number, fetched);
                if self.attempts < SUBMIT_ATTEMPTS {
                    (
                        Submitter {
                            sequence_number: number,
                            attempts: (self.attempts + 1) as u8,
                            phase: Phase::Submitted,
                        },
                        Action::Submit { sequence_number: number, max_gas_amount: MAX_GAS_AMOUNT },
                    )
                } else {
                    (
                        Submitter {
                            sequence_number: number,
                            attempts: self.attempts,
                            phase: Phase::Failed,
                        },
                        Action::Fail(Error::Rejected(kind)),
                    )
                }
            },
            (Phase::Accepted, Outcome::Finalized { user_transaction }) => if user_transaction {
                (Submitter { phase: Phase::Done, ..self }, Action::Succeed)
            } else {
                (
                    Submitter { phase: Phase::Failed, ..self },
                    Action::Fail(Error::UnexpectedResponseShape),
                )
            },
            _ => (Submitter { phase: Phase::Failed, ..self }, Action::Fail(Error::Exhausted)),
        }
    }

    /// A submission that has not begun.
    pub open spec fn new_spec(sequence_number: u64) -> Submitter {
        Submitter { sequence_number, attempts: 0, phase: Phase::Building }
    }

    /// A submission that has not begun, with the local sequence number.
    pub fn new(sequence_number: u64) -> (r: Submitter)
        ensures
            r == Submitter::new_spec(sequence_number),
            r.wf(),
    {
        Submitter { sequence_number, attempts: 0, phase: Phase::Building }
    }

    /// Begins the submission: the first attempt goes out with the local
    /// sequence number. A submission that has begun already fails with the
    /// error of a spent budget.
    pub fn start(&mut self) -> (action: Action)
        ensures
            old(self).wf() ==> final(self).wf(),
            final(self).sequence_number == old(self).sequence_number,
            old(self).phase == Phase::Building ==> *final(self) == (Submitter {
                phase: Phase::Submitted,
                attempts: 1,
                ..*old(self)
            }) && action == (Action::Submit {
                sequence_number: old(self).sequence_number,
                max_gas_amount: MAX_GAS_AMOUNT,
            }),
            old(self).phase != Phase::Building ==> *final(self) == (Submitter {
                phase: Phase::Failed,
                ..*old(self)
            }) && action == Action::Fail(Error::Exhausted),
    {
        match self.phase {
            Phase::Building => {
                self.phase = Phase::Submitted;
                self.attempts = 1;
                Action::Submit {
                    sequence_number: self.sequence_number,
                    max_gas_amount: MAX_GAS_AMOUNT,
                }
            },
            _ => {
                self.phase = Phase::Failed;
                Action::Fail(Error::Exhausted)
            },
        }
    }

    /// Takes the report of the outside and decides what is done next.
    pub fn step(&mut self, outcome: Outcome) -> (action: Action)
        ensures
            old(self).wf() ==> final(self).wf(),
            (*final(self), action) == old(self).next(outcome),
            final(self).sequence_number >= old(self).sequence_number,
            final(self).attempts >= old(self).attempts,
    {
        match (self.phase, outcome) {
            (Phase::Submitted, Outcome::Accepted) => {
                self.phase = Phase::Accepted;
                Action::AwaitFinality
            },
            (Phase::Submitted, Outcome::Rejected(kind)) => {
                if kind.is_retryable() {
                    self.phase = Phase::Rejected(kind);
                    Action::FetchSequenceNumber
                } else {
                    self.phase = Phase::Failed;
                    Action::Fail(Error::Rejected(kind))
                }
            },
            (Phase::Rejected(kind), Outcome::SequenceNumber(fetched)) => {
                self.sequence_number = resync(self.sequence_number, fetched);
                if self.attempts < SUBMIT_ATTEMPTS {
                    self.attempts = self.attempts + 1;
                    self.phase = Phase::Submitted;
                    Action::Submit {
                        sequence_number: self.sequence_number,
                        max_gas_amount: MAX_GAS_AMOUNT,
                    }
                } else {
                    self.phase = Phase::Failed;
                    Action::Fail(Error::Rejected(kind))
                }
            },
            (Phase::Accepted, Outcome::Finalized { user_transaction }) => {
                if user_transaction {
                    self.phase = Phase::Done;
                    Action::Succeed
                } else {
                    self.phase = Phase::Failed;
                    Action::Fail(Error::UnexpectedResponseShape)
                }
            },
            _ => {
                self.phase = Phase::Failed;
                Action::Fail(Error::Exhausted)
            },
        }
    }
}

/// The actions that a run of reports asks for, one for each report.
pub open spec fn actions(s: Submitter, outcomes: Seq<Outcome>) -> Seq<Action>
    decreases outcomes.len(),
{
    if outcomes.len() == 0 {
        Seq::empty()
    } else {
        seq![s.next(outcomes[0]).1] + actions(s.next(outcomes[0]).0, outcomes.drop_first())
    }
}

/// The state after a run of reports.
pub open spec fn state_after(s: Submitter, outcomes: Seq<Outcome>) -> Submitter
    decreases outcomes.len(),
{
    if outcomes.len() == 0 {
        s
    } else {
        state_after(s.next(outcomes[0]).0, outcomes.drop_first())
    }
}

/// How many of the actions submit the call.
pub open spec fn submissions(acts: Seq<Action>) -> nat
    decreases acts.len(),
{
    if acts.len() == 0 {
        0
    } else {
        submissions(acts.drop_first()) + if acts[0] is Submit {
            1nat
        } else {
            0nat
        }
    }
}

/// How many of the actions hand out a final transaction.
pub open spec fn successes(acts: Seq<Action>) -> nat
    decreases acts.len(),
{
    if acts.len() == 0 {
        0
    } else {
        successes(acts.drop_first()) + if acts[0] is Succeed {
            1nat
        } else {
            0nat
        }
    }
}

/// Whatever is reported, and in whatever order: a submission that has begun
/// submits the call no more often than it has attempts left, it hands out at
/// most one final transaction, after which it submits nothing, and its
/// sequence number never falls.
pub proof fn lemma_budget_and_single_success(s: Submitter, outcomes: Seq<Outcome>)
    requires
        s.wf(),
        s.phase != Phase::Building,
    ensures
        submissions(actions(s, outcomes)) + s.attempts <= SUBMIT_ATTEMPTS,
        successes(actions(s, outcomes)) <= 1,
        s.phase == Phase::Done || s.phase == Phase::Failed ==> submissions(actions(s, outcomes))
            == 0 && successes(actions(s, outcomes)) == 0,
        state_after(s, outcomes).sequence_number >= s.sequence_number,
        state_after(s, outcomes).wf(),
    decreases outcomes.len(),
{
    if outcomes.len() > 0 {
        let (t, a) = s.next(outcomes[0]);
        let rest = outcomes.drop_first();
        lemma_budget_and_single_success(t, rest);
        let acts = actions(s, outcomes);
        assert(acts.drop_first() =~= actions(t, rest));
        assert(acts[0] == a);
    }
}

/// A first attempt that is rejected for its stale sequence number, followed
/// by a second that is accepted and becomes final: the call goes out twice,
/// the second time with the sequence number brought up to date, one final
/// transaction is handed out, and the local sequence number has moved once,
/// to the greater of the fetched number and one past the number it had.
pub proof fn lemma_resubmission_after_stale_sequence(local: u64, fetched: u64)
    ensures
        ({
            let begun = Submitter { sequence_number: local, attempts: 1, phase: Phase::Submitted };
            let outcomes = seq![
                Outcome::Rejected(RejectionKind::SequenceNumberTooOld),
                Outcome::SequenceNumber(fetched),
                Outcome::Accepted,
                Outcome::Finalized { user_transaction: true },
            ];
            &&& actions(begun, outcomes) == seq![
                Action::FetchSequenceNumber,
                Action::Submit {
                    sequence_number: resynced(local, fetched),
                    max_gas_amount: MAX_GAS_AMOUNT,
                },
                Action::AwaitFinality,
                Action::Succeed,
            ]
            &&& state_after(begun, outcomes) == (Submitter {
                sequence_number: resynced(local, fetched),
                attempts: 2,
                phase: Phase::Done,
            })
        }),
{
    let begun = Submitter { sequence_number: local, attempts: 1, phase: Phase::Submitted };
    let o0 = Outcome::Rejected(RejectionKind::SequenceNumberTooOld);
    let o1 = Outcome::SequenceNumber(fetched);
    let o2 = Outcome::Accepted;
    let o3 = Outcome::Finalized { user_transaction: true };
    let outcomes = seq![o0, o1, o2, o3];
    let s1 = begun.next(o0).0;
    let s2 = s1.next(o1).0;
    let s3 = s2.next(o2).0;
    let s4 = s3.next(o3).0;
    let r1 = outcomes.drop_first();
    let r2 = r1.drop_first();
    let r3 = r2.drop_first();
    let r4 = r3.drop_first();
    assert(r4.len() == 0);
    assert(actions(s4, r4) =~= Seq::<Action>::empty());
    assert(actions(s3, r3) =~= seq![Action::Succeed]);
    assert(actions(s2, r2) =~= seq![Action::AwaitFinality, Action::Succeed]);
    assert(actions(s1, r1) =~= seq![
        Action::Submit { sequence_number: resynced(local, fetched), max_gas_amount: MAX_GAS_AMOUNT },
        Action::AwaitFinality,
        Action::Succeed,
    ]);
    assert(actions(begun, outcomes) =~= seq![
        Action::FetchSequenceNumber,
        Action::Submit { sequence_number: resynced(local, fetched), max_gas_amount: MAX_GAS_AMOUNT },
        Action::AwaitFinality,
        Action::Succeed,
    ]);
    assert(state_after(s4, r4) == s4);
    assert(state_after(s3, r3) == s4);
    assert(state_after(s2, r2) == s4);
    assert(state_after(s1, r1) == s4);
}

/// An event as a final transaction carries it.
#[derive(Debug)]
pub struct EmittedEvent {
    /// The account of the struct that the event is of; `None` where the
    /// event is of no struct.
    pub emitter: Option<Address>,
    pub data: Json,
}

/// The events that the contract at `contract` emitted, in the order of
/// their emission. Events of other accounts are passed over unread; of the
/// others the first at fault decides the error.
pub open spec fn contract_events_of(emitted: Seq<EmittedEvent>, contract: Address) -> Result<
    Seq<LaminarEventView>,
    DecodeError,
>
    decreases emitted.len(),
{
    if emitted.len() == 0 {
        Ok(Seq::empty())
    } else {
        match contract_events_of(emitted.drop_last(), contract) {
            Err(e) => Err(e),
            Ok(front) => if emitted.last().emitter != Some(contract) {
                Ok(front)
            } else {
                match LaminarEvent::of_json(emitted.last().data) {
                    Err(e) => Err(e),
                    Ok(event) => Ok(front.push(event)),
                }
            },
        }
    }
}

/// A fault among the first `k` events is the fault of the whole list.
pub proof fn lemma_events_fault_stays(emitted: Seq<EmittedEvent>, contract: Address, k: int)
    requires
        0 <= k <= emitted.len(),
        contract_events_of(emitted.subrange(0, k), contract) is Err,
    ensures
        contract_events_of(emitted, contract) == contract_events_of(
            emitted.subrange(0, k),
            contract,
        ),
    decreases emitted.len() - k,
{
    if k == emitted.len() {
        assert(emitted.subrange(0, k) =~= emitted);
    } else {
        let longer = emitted.subrange(0, k + 1);
        assert(longer.drop_last() =~= emitted.subrange(0, k));
        lemma_events_fault_stays(emitted, contract, k + 1);
    }
}

/// What a list of events holds, in its order.
pub open spec fn events_view(events: Seq<LaminarEvent>) -> Seq<LaminarEventView> {
    events.map_values(|e: LaminarEvent| e@)
}

/// Picks the events of the contract out of those of a final transaction and
/// reads them.
pub fn contract_events(emitted: &Vec<EmittedEvent>, contract: &Address) -> (r: Result<
    Vec<LaminarEvent>,
    DecodeError,
>)
    ensures
        match r {
            Ok(events) => contract_events_of(emitted@, *contract) == Ok::<
                Seq<LaminarEventView>,
                DecodeError,
            >(events_view(events@)),
            Err(e) => contract_events_of(emitted@, *contract) == Err::<
                Seq<LaminarEventView>,
                DecodeError,
            >(e),
        },
{
    let mut out: Vec<LaminarEvent> = Vec::new();
    let mut i: usize = 0;
    assert(emitted@.subrange(0, 0) =~= Seq::<EmittedEvent>::empty());
    assert(events_view(out@) =~= Seq::<LaminarEventView>::empty());
    while i < emitted.len()
        invariant
            0 <= i <= emitted@.len(),
            contract_events_of(emitted@.subrange(0, i as int), *contract) == Ok::<
                Seq<LaminarEventView>,
                DecodeError,
            >(events_view(out@)),
        decreases emitted@.len() - i,
    {
        let ghost before = events_view(out@);
        let ghost next = emitted@.subrange(0, i + 1);
        proof {
            assert(next.drop_last() =~= emitted@.subrange(0, i as int));
            assert(next.last() == emitted@[i as int]);
        }
        let from_contract = match emitted[i].emitter {
            Some(a) => a == *contract,
            None => false,
        };
        if from_contract {
            match LaminarEvent::from_json(&emitted[i].data) {
                Err(e) => {
                    proof {
                        lemma_events_fault_stays(emitted@, *contract, i + 1);
                    }
                    return Err(e);
                },
                Ok(event) => {
                    out.push(event);
                    assert(events_view(out@) =~= before.push(event@));
                },
            }
        }
        i = i + 1;
    }
    assert(emitted@.subrange(0, emitted@.len() as int) =~= emitted@);
    Ok(out)
}

/// What one successful submission brought: the ledger's record of the
/// transaction and of the request, the events of the contract, and the time.
#[derive(Debug)]
pub struct LaminarTransaction<I, R> {
    pub info: I,
    pub request: R,
    pub events: Vec<LaminarEvent>,
    pub timestamp: u64,
}

/// Makes up the result of a submission from a final transaction of a user.
pub fn finish<I, R>(
    info: I,
    request: R,
    emitted: &Vec<EmittedEvent>,
    contract: &Address,
    timestamp: u64,
) -> (r: Result<LaminarTransaction<I, R>, Error>)
    ensures
        match r {
            Ok(tx) => contract_events_of(emitted@, *contract) == Ok::<
                Seq<LaminarEventView>,
                DecodeError,
            >(events_view(tx.events@)) && tx.info == info && tx.request == request && tx.timestamp
                == timestamp,
            Err(e) => contract_events_of(emitted@, *contract) is Err && e == Error::Decode(
                contract_events_of(emitted@, *contract)->Err_0,
            ),
        },
{
    match contract_events(emitted, contract) {
        Ok(events) => Ok(LaminarTransaction { info, request, events, timestamp }),
        Err(e) => Err(Error::Decode(e)),
    }
}

} // verus!
