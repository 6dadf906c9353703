use laminar_sdk::error::{Error, RejectionKind};
use laminar_sdk::events::LaminarEvent;
use laminar_sdk::json::{DecodeError, Json, Member};
use laminar_sdk::submit::{
    contract_events, finish, resync, Action, EmittedEvent, Outcome, Phase, Submitter,
    MAX_GAS_AMOUNT, SUBMIT_ATTEMPTS,
};
use laminar_sdk::types::Address;

fn text(s: &str) -> Json {
    Json::Text(s.to_string())
}

fn member(name: &str, value: Json) -> Member {
    Member { name: name.to_string(), value }
}

fn id_json(n: u64) -> Json {
    Json::Object(vec![member("creation_num", text(&n.to_string())), member("addr", text("0x1"))])
}

fn fill_json(order: u64) -> Json {
    Json::Object(vec![
        member("book_id", id_json(1)),
        member("order_id", id_json(order)),
        member("side", Json::Number(0)),
        member("price", text("100")),
        member("fill_size", text("1")),
        member("fee", text("0")),
        member("fee_rate", text("0")),
        member("time", text("4")),
        member("remaining_size", text("3")),
        member("is_maker", Json::Bool(true)),
    ])
}

fn submit(n: u64) -> Action {
    Action::Submit { sequence_number: n, max_gas_amount: 1_000_000 }
}

#[test]
fn constants_of_the_protocol() {
    assert_eq!(SUBMIT_ATTEMPTS, 10);
    assert_eq!(MAX_GAS_AMOUNT, 1_000_000);
}

#[test]
fn resync_never_falls_below_one_past_the_local_number() {
    assert_eq!(resync(5, 3), 6);
    assert_eq!(resync(5, 6), 6);
    assert_eq!(resync(5, 9), 9);
    assert_eq!(resync(5, 5), 6);
    assert_eq!(resync(0, 0), 1);
    assert_eq!(resync(u64::MAX, 0), u64::MAX);
    assert_eq!(resync(u64::MAX - 1, 0), u64::MAX);
}

#[test]
fn accepted_at_once() {
    let mut s = Submitter::new(5);
    assert_eq!(s.start(), submit(5));
    assert_eq!(s.step(Outcome::Accepted), Action::AwaitFinality);
    assert_eq!(s.step(Outcome::Finalized { user_transaction: true }), Action::Succeed);
    assert_eq!(s.phase, Phase::Done);
    assert_eq!(s.sequence_number, 5);
    assert_eq!(s.attempts, 1);
}

#[test]
fn stale_sequence_is_resynced_and_retried_once() {
    let mut s = Submitter::new(5);
    let mut trace = vec![s.start()];
    trace.push(s.step(Outcome::Rejected(RejectionKind::SequenceNumberTooOld)));
    trace.push(s.step(Outcome::SequenceNumber(9)));
    trace.push(s.step(Outcome::Accepted));
    trace.push(s.step(Outcome::Finalized { user_transaction: true }));
    assert_eq!(
        trace,
        vec![
            submit(5),
            Action::FetchSequenceNumber,
            submit(9),
            Action::AwaitFinality,
            Action::Succeed
        ]
    );
    assert_eq!(trace.iter().filter(|a| **a == Action::Succeed).count(), 1);
    assert_eq!(s.sequence_number, 9);
    assert_eq!(s.attempts, 2);
    assert_eq!(s.phase, Phase::Done);
}

#[test]
fn stale_fetched_number_still_moves_the_local_one() {
    let mut s = Submitter::new(5);
    s.start();
    s.step(Outcome::Rejected(RejectionKind::InvalidTransactionUpdate));
    assert_eq!(s.step(Outcome::SequenceNumber(2)), submit(6));
    assert_eq!(s.sequence_number, 6);
}

#[test]
fn every_retryable_kind_is_retried() {
    for kind in [
        RejectionKind::SequenceNumberTooOld,
        RejectionKind::InvalidTransactionUpdate,
        RejectionKind::VmError,
    ] {
        assert!(kind.is_retryable());
        let mut s = Submitter::new(0);
        s.start();
        assert_eq!(s.step(Outcome::Rejected(kind)), Action::FetchSequenceNumber);
        assert_eq!(s.phase, Phase::Rejected(kind));
    }
    assert!(!RejectionKind::Other.is_retryable());
}

#[test]
fn other_rejection_fails_at_once() {
    let mut s = Submitter::new(5);
    s.start();
    assert_eq!(
        s.step(Outcome::Rejected(RejectionKind::Other)),
        Action::Fail(Error::Rejected(RejectionKind::Other))
    );
    assert_eq!(s.phase, Phase::Failed);
    assert_eq!(s.sequence_number, 5);
    assert_eq!(s.attempts, 1);
}

#[test]
fn tenth_rejection_is_handed_out() {
    let mut s = Submitter::new(0);
    let mut submissions = 0;
    let mut action = s.start();
    let mut last = None;
    for _ in 0..100 {
        match action {
            Action::Submit { .. } => {
                submissions += 1;
                action = s.step(Outcome::Rejected(RejectionKind::VmError));
            }
            Action::FetchSequenceNumber => {
                action = s.step(Outcome::SequenceNumber(0));
            }
            other => {
                last = Some(other);
                break;
            }
        }
    }
    assert_eq!(submissions, 10);
    assert_eq!(last, Some(Action::Fail(Error::Rejected(RejectionKind::VmError))));
    assert_eq!(s.attempts, 10);
    assert_eq!(s.sequence_number, 10);
    assert_eq!(s.phase, Phase::Failed);
}

#[test]
fn final_transaction_of_another_kind_is_a_failure() {
    let mut s = Submitter::new(5);
    s.start();
    s.step(Outcome::Accepted);
    assert_eq!(
        s.step(Outcome::Finalized { user_transaction: false }),
        Action::Fail(Error::UnexpectedResponseShape)
    );
    assert_eq!(s.phase, Phase::Failed);
}

#[test]
fn report_out_of_turn_ends_the_submission() {
    let mut s = Submitter::new(5);
    assert_eq!(s.step(Outcome::Accepted), Action::Fail(Error::Exhausted));
    assert_eq!(s.phase, Phase::Failed);
    let mut s = Submitter::new(5);
    s.start();
    assert_eq!(s.step(Outcome::SequenceNumber(9)), Action::Fail(Error::Exhausted));
    assert_eq!(s.sequence_number, 5);
    let mut s = Submitter::new(5);
    s.start();
    assert_eq!(s.start(), Action::Fail(Error::Exhausted));
}

#[test]
fn nothing_follows_success() {
    let mut s = Submitter::new(5);
    s.start();
    s.step(Outcome::Accepted);
    s.step(Outcome::Finalized { user_transaction: true });
    assert_eq!(s.step(Outcome::Accepted), Action::Fail(Error::Exhausted));
    assert_eq!(
        s.step(Outcome::Finalized { user_transaction: true }),
        Action::Fail(Error::Exhausted)
    );
}

#[test]
fn events_of_other_contracts_are_passed_over() {
    let contract = Address { hi: 0, lo: 0xabc };
    let emitted = vec![
        EmittedEvent { emitter: Some(Address { hi: 0, lo: 1 }), data: Json::Null },
        EmittedEvent { emitter: Some(contract), data: fill_json(7) },
        EmittedEvent { emitter: None, data: Json::Null },
        EmittedEvent { emitter: Some(contract), data: fill_json(8) },
    ];
    let events = contract_events(&emitted, &contract).unwrap();
    assert_eq!(events.len(), 2);
    assert!(matches!(&events[0], LaminarEvent::FillEvent(f) if f.order_id.creation_num == 7));
    assert!(matches!(&events[1], LaminarEvent::FillEvent(f) if f.order_id.creation_num == 8));
}

#[test]
fn fault_in_an_event_of_the_contract_fails_the_whole() {
    let contract = Address { hi: 0, lo: 0xabc };
    let emitted = vec![
        EmittedEvent { emitter: Some(contract), data: fill_json(7) },
        EmittedEvent { emitter: Some(contract), data: Json::Null },
    ];
    assert_eq!(contract_events(&emitted, &contract).err(), Some(DecodeError::NoEventKind));
    assert_eq!(
        finish("info", "request", &emitted, &contract, 3).err(),
        Some(Error::Decode(DecodeError::NoEventKind))
    );
}

#[test]
fn result_of_a_submission() {
    let contract = Address { hi: 0, lo: 0xabc };
    let emitted = vec![EmittedEvent { emitter: Some(contract), data: fill_json(7) }];
    let tx = finish("info", 17u32, &emitted, &contract, 1234).unwrap();
    assert_eq!(tx.info, "info");
    assert_eq!(tx.request, 17);
    assert_eq!(tx.timestamp, 1234);
    assert_eq!(tx.events.len(), 1);
}

#[test]
fn rejection_kinds_by_error_code() {
    assert_eq!(
        RejectionKind::from_error_code("sequence_number_too_old"),
        RejectionKind::SequenceNumberTooOld
    );
    assert_eq!(
        RejectionKind::from_error_code("invalid_transaction_update"),
        RejectionKind::InvalidTransactionUpdate
    );
    assert_eq!(RejectionKind::from_error_code("vm_error"), RejectionKind::VmError);
    assert_eq!(RejectionKind::from_error_code("account_not_found"), RejectionKind::Other);
    assert_eq!(RejectionKind::from_error_code(""), RejectionKind::Other);
    assert_eq!(RejectionKind::from_error_code("VM_ERROR"), RejectionKind::Other);
}
