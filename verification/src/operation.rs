//! The operations that the engine is fed: deposits and withdrawals, which
//! carry an amount, and disputes, resolves and chargebacks, which refer to an
//! earlier deposit.

pub use error::{TransactionError, TransactionResult};
pub use transaction_store::{LockForInsert, TransactionStore, TransactionStoreValue};

mod error;
mod transaction_store;

use crate::account::ClientId;
use crate::money::Money;
use vstd::prelude::*;
use vstd::std_specs::convert::{FromSpecImpl, TryFromSpecImpl};

verus! {

/// The number of a transaction.
pub type TransactionId = u32;

/// The two kinds of transaction.
#[derive(Debug, Clone, Copy, PartialEq, Eq)]
pub enum TransactionType {
    Deposit,
    Withdrawal,
}

/// A deposit or a withdrawal.
#[derive(Debug, Clone, Copy, PartialEq, Eq)]
pub struct Transaction {
    pub type_: TransactionType,
    pub client: ClientId,
    pub tx: TransactionId,
    pub amount: Money,
}

impl Transaction {
    /// The deposit `tx` of `amount` by `client`.
    pub fn deposit(client: ClientId, tx: TransactionId, amount: Money) -> (r: Transaction)
        ensures
            r == (Transaction { type_: TransactionType::Deposit, client, tx, amount }),
    {
        Transaction { type_: TransactionType::Deposit, client, tx, amount }
    }

    /// The withdrawal `tx` of `amount` by `client`.
    pub fn withdrawal(client: ClientId, tx: TransactionId, amount: Money) -> (r: Transaction)
        ensures
            r == (Transaction { type_: TransactionType::Withdrawal, client, tx, amount }),
    {
        Transaction { type_: TransactionType::Withdrawal, client, tx, amount }
    }
}

/// The three kinds of conflict.
#[derive(Debug, Clone, Copy, PartialEq, Eq)]
pub enum ConflictType {
    Dispute,
    Resolve,
    Chargeback,
}

/// A dispute, a resolve or a chargeback of transaction `tx`.
#[derive(Debug, Clone, Copy, PartialEq, Eq)]
pub struct Conflict {
    pub type_: ConflictType,
    pub client: ClientId,
    pub tx: TransactionId,
}

impl Conflict {
    /// The dispute of transaction `tx` by `client`.
    pub fn dispute(client: ClientId, tx: TransactionId) -> (r: Conflict)
        ensures
            r == (Conflict { type_: ConflictType::Dispute, client, tx }),
    {
        Conflict { type_: ConflictType::Dispute, client, tx }
    }

    /// The resolve of the dispute of transaction `tx` by `client`.
    pub fn resolve(client: ClientId, tx: TransactionId) -> (r: Conflict)
        ensures
            r == (Conflict { type_: ConflictType::Resolve, client, tx }),
    {
        Conflict { type_: ConflictType::Resolve, client, tx }
    }

    /// The chargeback of the disputed transaction `tx` by `client`.
    pub fn chargeback(client: ClientId, tx: TransactionId) -> (r: Conflict)
        ensures
            r == (Conflict { type_: ConflictType::Chargeback, client, tx }),
    {
        Conflict { type_: ConflictType::Chargeback, client, tx }
    }
}

/// One operation of the input.
#[derive(Debug, Clone, Copy, PartialEq, Eq)]
pub enum Operation {
    Transaction(Transaction),
    Conflict(Conflict),
}

impl Operation {
    /// The client that the operation is about.
    pub fn client(&self) -> (r: ClientId)
        ensures
            r == self.spec_client(),
    {
        match self {
            Operation::Transaction(tx) => tx.client,
            Operation::Conflict(dm) => dm.client,
        }
    }

    /// The client that the operation is about.
    pub open spec fn spec_client(self) -> ClientId {
        match self {
            Operation::Transaction(tx) => tx.client,
            Operation::Conflict(dm) => dm.client,
        }
    }
}

impl From<Transaction> for Operation {
    fn from(tx: Transaction) -> (r: Operation) {
        Operation::Transaction(tx)
    }
}

impl FromSpecImpl<Transaction> for Operation {
    open spec fn obeys_from_spec() -> bool {
        true
    }

    open spec fn from_spec(tx: Transaction) -> Operation {
        Operation::Transaction(tx)
    }
}

impl From<Conflict> for Operation {
    fn from(conflict: Conflict) -> (r: Operation) {
        Operation::Conflict(conflict)
    }
}

impl FromSpecImpl<Conflict> for Operation {
    open spec fn obeys_from_spec() -> bool {
        true
    }

    open spec fn from_spec(conflict: Conflict) -> Operation {
        Operation::Conflict(conflict)
    }
}

/// One row of the input as it was read: the kind by its name, and the amount
/// where the row had one.
#[derive(Debug)]
pub struct OperationDto {
    pub type_: String,
    pub client: ClientId,
    pub tx: TransactionId,
    pub amount: Option<Money>,
}

/// Whether `type_` is the word `word`.
fn is_kind(type_: &String, word: &str) -> (r: bool)
    ensures
        r == (type_@ == word@),
{
    let word = word.to_owned();
    *type_ == word
}

impl TryFrom<OperationDto> for Operation {
    type Error = TransactionError;

    /// The operation that a row stands for. A deposit or a withdrawal needs
    /// its amount; a conflict takes none, and one that is there is dropped.
    fn try_from(dto: OperationDto) -> (r: Result<Operation, TransactionError>) {
        if is_kind(&dto.type_, "deposit") {
            match dto.amount {
                Some(amount) => Ok(
                    Operation::Transaction(
                        Transaction {
                            type_: TransactionType::Deposit,
                            tx: dto.tx,
                            client: dto.client,
                            amount,
                        },
                    ),
                ),
                None => Err(
                    TransactionError::DeserializeMissingAmount { type_: dto.type_, id: dto.tx },
                ),
            }
        } else if is_kind(&dto.type_, "withdrawal") {
            match dto.amount {
                Some(amount) => Ok(
                    Operation::Transaction(
                        Transaction {
                            type_: TransactionType::Withdrawal,
                            tx: dto.tx,
                            client: dto.client,
                            amount,
                        },
                    ),
                ),
                None => Err(
                    TransactionError::DeserializeMissingAmount { type_: dto.type_, id: dto.tx },
                ),
            }
        } else if is_kind(&dto.type_, "dispute") {
            Ok(
                Operation::Conflict(
                    Conflict { type_: ConflictType::Dispute, tx: dto.tx, client: dto.client },
                ),
            )
        } else if is_kind(&dto.type_, "resolve") {
            Ok(
                Operation::Conflict(
                    Conflict { type_: ConflictType::Resolve, tx: dto.tx, client: dto.client },
                ),
            )
        } else if is_kind(&dto.type_, "chargeback") {
            Ok(
                Operation::Conflict(
                    Conflict { type_: ConflictType::Chargeback, tx: dto.tx, client: dto.client },
                ),
            )
        } else {
            Err(TransactionError::DeserializeUnknownType { type_: dto.type_, id: dto.tx })
        }
    }
}

impl TryFromSpecImpl<OperationDto> for Operation {
    open spec fn obeys_try_from_spec() -> bool {
        true
    }

    open spec fn try_from_spec(dto: OperationDto) -> Result<Operation, TransactionError> {
        if dto.type_@ == "deposit"@ || dto.type_@ == "withdrawal"@ {
            match dto.amount {
                Some(amount) => Ok(
                    Operation::Transaction(
                        Transaction {
                            type_: if dto.type_@ == "deposit"@ {
                                TransactionType::Deposit
                            } else {
                                TransactionType::Withdrawal
                            },
                            tx: dto.tx,
                            client: dto.client,
                            amount,
                        },
                    ),
                ),
                None => Err(
                    TransactionError::DeserializeMissingAmount { type_: dto.type_, id: dto.tx },
                ),
            }
        } else if dto.type_@ == "dispute"@ || dto.type_@ == "resolve"@ || dto.type_@
            == "chargeback"@ {
            Ok(
                Operation::Conflict(
                    Conflict {
                        type_: if dto.type_@ == "dispute"@ {
                            ConflictType::Dispute
                        } else if dto.type_@ == "resolve"@ {
                            ConflictType::Resolve
                        } else {
                            ConflictType::Chargeback
                        },
                        tx: dto.tx,
                        client: dto.client,
                    },
                ),
            )
        } else {
            Err(TransactionError::DeserializeUnknownType { type_: dto.type_, id: dto.tx })
        }
    }
}

/// The operations that a sequence of rows stands for, in the order of the
/// rows: a row that stands for none is left out.
pub open spec fn operations_of_rows(rows: Seq<OperationDto>) -> Seq<Operation>
    decreases rows.len(),
{
    if rows.len() == 0 {
        Seq::empty()
    } else {
        match <Operation as vstd::std_specs::convert::TryFromSpec<OperationDto>>::try_from_spec(
            rows.last(),
        ) {
            Ok(operation) => operations_of_rows(rows.drop_last()).push(operation),
            Err(_) => operations_of_rows(rows.drop_last()),
        }
    }
}

/// Turns the rows of the input into operations. A row of an unknown kind, or
/// a deposit or a withdrawal without an amount, is skipped.
pub fn operations_from_rows(rows: Vec<OperationDto>) -> (r: Vec<Operation>)
    ensures
        r@ == operations_of_rows(rows@),
{
    let ghost all = rows@;
    let mut operations: Vec<Operation> = Vec::new();
    for row in it: rows
        invariant
            it.seq() == all,
            operations@ == operations_of_rows(all.take(it.index())),
    {
        proof {
            let next = all.take(it.index() + 1);
            assert(next.drop_last() =~= all.take(it.index()));
            assert(next.last() == row);
        }
        match Operation::try_from(row) {
            Ok(operation) => {
                operations.push(operation);
            },
            Err(_) => {},
        }
    }
    proof {
        assert(all.take(all.len() as int) =~= all);
    }
    operations
}

} // verus!
