//! The ways in which an operation on an account fails.

use crate::account::ClientId;
use crate::money::Money;
use vstd::prelude::*;

verus! {

/// What an operation on an account returns.
pub type AccountResult<T> = Result<T, AccountError>;

/// Why an operation left an account as it was.
#[derive(Clone, Copy, Debug, PartialEq, Eq)]
pub enum AccountError {
    /// A withdrawal asked for more than is available.
    InsufficientAvailable { needed: Money, available: Money, client: ClientId },
    /// A release or a chargeback asked for more than is held.
    InsufficientHeld { needed: Money, held: Money, client: ClientId },
    /// A withdrawal was asked of a locked account.
    Locked { client: ClientId },
}

} // verus!
