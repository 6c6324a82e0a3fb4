//! The ways in which a payment operation fails.

use crate::account::{AccountError, ClientId};
use crate::operation::{TransactionError, TransactionId};
use vstd::prelude::*;
use vstd::std_specs::convert::FromSpecImpl;

verus! {

/// What a payment operation returns.
pub type PaymentResult<T> = Result<T, PaymentError>;

/// Why an operation was dropped, or why the engine gave up.
#[derive(Debug, PartialEq, Eq)]
pub enum PaymentError {
    /// A dispute named a transaction that is under dispute already.
    TransactionAlreadyDisputed { id: TransactionId },
    /// A resolve or a chargeback named a transaction that is not under dispute.
    TransactionNotDisputed { id: TransactionId },
    /// A conflict named the transaction of another client.
    ConflictClientMismatch { tx: TransactionId, expected: ClientId, actual: ClientId },
    /// A conflict named a withdrawal.
    WithdrawalCannotBeDisputed { tx: TransactionId },
    /// The account refused a deposit.
    Deposit(AccountError),
    /// The account refused a withdrawal.
    Withdrawal(AccountError),
    /// The account refused to hold a disputed amount.
    Hold(AccountError),
    /// The account refused to release a held amount.
    Release(AccountError),
    /// The account refused a chargeback.
    Chargeback(AccountError),
    /// The transaction store refused the operation.
    Transaction(TransactionError),
    /// An operation could not be handed to the processor of its client.
    DispatchOperation { client: ClientId },
    /// A processor stopped before it had handled all its operations.
    JoiningProcessors,
}

impl From<TransactionError> for PaymentError {
    fn from(e: TransactionError) -> (r: PaymentError) {
        PaymentError::Transaction(e)
    }
}

impl FromSpecImpl<TransactionError> for PaymentError {
    open spec fn obeys_from_spec() -> bool {
        true
    }

    open spec fn from_spec(e: TransactionError) -> PaymentError {
        PaymentError::Transaction(e)
    }
}

} // verus!
