//! The ways in which an operation of the client fails.

use crate::json::{DecodeError, same_text};
use vstd::prelude::*;

verus! {

/// How the ledger answered a call that it did not accept.
#[derive(Clone, Copy, Debug, PartialEq, Eq, Structural)]
pub enum RejectionKind {
    /// The sequence number of the call has been used already.
    SequenceNumberTooOld,
    /// The call would replace a pending one and may not.
    InvalidTransactionUpdate,
    /// The contract failed while it ran the call.
    VmError,
    /// Any other answer.
    Other,
}

impl RejectionKind {
    /// The kind that an error code of the ledger stands for.
    pub open spec fn of_code(code: Seq<char>) -> RejectionKind {
        if code == "sequence_number_too_old"@ {
            RejectionKind::SequenceNumberTooOld
        } else if code == "invalid_transaction_update"@ {
            RejectionKind::InvalidTransactionUpdate
        } else if code == "vm_error"@ {
            RejectionKind::VmError
        } else {
            RejectionKind::Other
        }
    }

    /// Tells the kind of a rejection from the error code of the ledger.
    pub fn from_error_code(code: &str) -> (r: RejectionKind)
        ensures
            r == RejectionKind::of_code(code@),
    {
        if same_text(code, "sequence_number_too_old") {
            RejectionKind::SequenceNumberTooOld
        } else if same_text(code, "invalid_transaction_update") {
            RejectionKind::InvalidTransactionUpdate
        } else if same_text(code, "vm_error") {
            RejectionKind::VmError
        } else {
            RejectionKind::Other
        }
    }

    /// Whether a call that was rejected in this way is worth another
    /// attempt, once the sequence number has been brought up to date.
    pub open spec fn retryable(self) -> bool {
        self != RejectionKind::Other
    }

    /// Tells whether a call that was rejected in this way is worth another
    /// attempt.
    pub fn is_retryable(&self) -> (r: bool)
        ensures
            r == self.retryable(),
    {
        match self {
            RejectionKind::Other => false,
            _ => true,
        }
    }
}

/// Why an operation failed.
#[derive(Clone, Copy, Debug, PartialEq, Eq, Structural)]
pub enum Error {
    /// The resource or the order does not exist.
    NotFound,
    /// A snapshot or an event is malformed.
    Decode(DecodeError),
    /// The ledger rejected the call.
    Rejected(RejectionKind),
    /// Every attempt has been spent.
    Exhausted,
    /// The finalized transaction is not of the expected kind.
    UnexpectedResponseShape,
}

} // verus!
