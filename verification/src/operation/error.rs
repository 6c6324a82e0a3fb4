//! The ways in which recording or reading a transaction fails.

use crate::operation::TransactionId;
use vstd::prelude::*;

verus! {

/// What an operation on the transaction store returns.
pub type TransactionResult<T> = Result<T, TransactionError>;

/// Why a transaction was not found, not recorded or not read.
#[derive(Debug, PartialEq, Eq)]
pub enum TransactionError {
    /// No transaction with this number is recorded.
    NotFound { id: TransactionId },
    /// A transaction with this number is recorded already.
    Conflict { id: TransactionId },
    /// A deposit or a withdrawal came without an amount.
    DeserializeMissingAmount { type_: String, id: TransactionId },
    /// The kind of the operation is none of the five known ones.
    DeserializeUnknownType { type_: String, id: TransactionId },
}

} // verus!
