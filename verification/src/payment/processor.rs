//! The processor: it owns the accounts and the recorded transactions of the
//! clients it serves, and applies their operations one after the other.

use crate::account::{Account, AccountError, AccountStore, AccountView, ClientId};
use crate::money::Money;
use crate::operation::{
    Conflict, ConflictType, Operation, Transaction, TransactionError, TransactionId,
    TransactionStore, TransactionStoreValue, TransactionType,
};
use crate::payment::{PaymentError, PaymentResult};
use vstd::prelude::*;

verus! {

broadcast use {
    Money::lemma_of_parts,
    Money::lemma_sum_is_exact,
    Money::lemma_difference_is_exact,
};

/// What a processor holds: the accounts by client and the recorded
/// transactions by number.
#[verifier::ext_equal]
pub struct ProcessorView {
    pub accounts: Map<ClientId, AccountView>,
    pub transactions: Map<TransactionId, TransactionStoreValue>,
}

impl ProcessorView {
    /// A processor that has handled nothing yet.
    pub open spec fn empty() -> ProcessorView {
        ProcessorView { accounts: Map::empty(), transactions: Map::empty() }
    }

    /// The account of `client`: the one that is there, or else a new one.
    pub open spec fn account(self, client: ClientId) -> AccountView {
        if self.accounts.contains_key(client) {
            self.accounts[client]
        } else {
            AccountView::new(client)
        }
    }

    /// What a deposit or a withdrawal returns. A number that is recorded
    /// already is refused first; a withdrawal may then be refused by the
    /// account.
    pub open spec fn transaction_result(self, tx: Transaction) -> PaymentResult<()> {
        if self.transactions.contains_key(tx.tx) {
            Err(PaymentError::Transaction(TransactionError::Conflict { id: tx.tx }))
        } else {
            match tx.type_ {
                TransactionType::Deposit => Ok(()),
                TransactionType::Withdrawal => match self.account(tx.client).withdraw_result(
                    tx.amount,
                ) {
                    Ok(_) => Ok(()),
                    Err(e) => Err(PaymentError::Withdrawal(e)),
                },
            }
        }
    }

    /// Whether the arithmetic of a deposit or a withdrawal can be done
    /// exactly.
    pub open spec fn can_transaction(self, tx: Transaction) -> bool {
        !self.transactions.contains_key(tx.tx) ==> match tx.type_ {
            TransactionType::Deposit => self.account(tx.client).can_deposit(tx.amount),
            TransactionType::Withdrawal => self.account(tx.client).can_withdraw(tx.amount),
        }
    }

    /// The processor after a deposit or a withdrawal. One with a number that
    /// is recorded already changes nothing. Any other brings the account of its
    /// client into being, and is recorded if and only if the account accepted
    /// it.
    pub open spec fn transaction(self, tx: Transaction) -> ProcessorView {
        if self.transactions.contains_key(tx.tx) {
            self
        } else {
            ProcessorView {
                accounts: self.accounts.insert(
                    tx.client,
                    match tx.type_ {
                        TransactionType::Deposit => self.account(tx.client).deposit(tx.amount),
                        TransactionType::Withdrawal => self.account(tx.client).withdraw(tx.amount),
                    },
                ),
                transactions: if self.transaction_result(tx) is Ok {
                    self.transactions.insert(
                        tx.tx,
                        TransactionStoreValue { transaction: tx, disputed: false },
                    )
                } else {
                    self.transactions
                },
            }
        }
    }

    /// Whether a conflict gets as far as the account: it names a recorded
    /// deposit of its own client, which is under dispute if and only if the
    /// conflict is no dispute.
    pub open spec fn conflict_reaches_account(self, conflict: Conflict) -> bool {
        &&& self.transactions.contains_key(conflict.tx)
        &&& self.transactions[conflict.tx].transaction.client == conflict.client
        &&& self.transactions[conflict.tx].transaction.type_ is Deposit
        &&& self.transactions[conflict.tx].disputed == !(conflict.type_ is Dispute)
    }

    /// What a conflict returns. The checks are made in this order: the
    /// transaction is recorded; it belongs to the client of the conflict; it
    /// is no withdrawal; it is under dispute, or is not, as the kind of the
    /// conflict asks; the account has the funds.
    pub open spec fn conflict_result(self, conflict: Conflict) -> PaymentResult<()> {
        if !self.transactions.contains_key(conflict.tx) {
            Err(PaymentError::Transaction(TransactionError::NotFound { id: conflict.tx }))
        } else {
            let target = self.transactions[conflict.tx];
            let tx = target.transaction;
            if tx.client != conflict.client {
                Err(
                    PaymentError::ConflictClientMismatch {
                        tx: tx.tx,
                        expected: tx.client,
                        actual: conflict.client,
                    },
                )
            } else if tx.type_ is Withdrawal {
                Err(PaymentError::WithdrawalCannotBeDisputed { tx: tx.tx })
            } else {
                match conflict.type_ {
                    ConflictType::Dispute => if target.disputed {
                        Err(PaymentError::TransactionAlreadyDisputed { id: tx.tx })
                    } else {
                        Ok(())
                    },
                    ConflictType::Resolve => if !target.disputed {
                        Err(PaymentError::TransactionNotDisputed { id: tx.tx })
                    } else {
                        match self.account(tx.client).settle_result(tx.amount) {
                            Ok(_) => Ok(()),
                            Err(e) => Err(PaymentError::Release(e)),
                        }
                    },
                    ConflictType::Chargeback => if !target.disputed {
                        Err(PaymentError::TransactionNotDisputed { id: tx.tx })
                    } else {
                        match self.account(tx.client).settle_result(tx.amount) {
                            Ok(_) => Ok(()),
                            Err(e) => Err(PaymentError::Chargeback(e)),
                        }
                    },
                }
            }
        }
    }

    /// Whether the arithmetic of a conflict can be done exactly.
    pub open spec fn can_conflict(self, conflict: Conflict) -> bool {
        self.conflict_reaches_account(conflict) ==> {
            let tx = self.transactions[conflict.tx].transaction;
            match conflict.type_ {
                ConflictType::Dispute => self.account(tx.client).can_dispute(tx.amount),
                ConflictType::Resolve => self.account(tx.client).can_release(tx.amount),
                ConflictType::Chargeback => self.account(tx.client).can_chargeback(tx.amount),
            }
        }
    }

    /// The processor after a conflict. One that does not get as far as the
    /// account changes nothing. Any other is applied to the account with the
    /// amount of the recorded deposit, and where the account accepts it, the
    /// deposit is marked as disputed by a dispute and as undisputed by a
    /// resolve or a chargeback.
    pub open spec fn conflict(self, conflict: Conflict) -> ProcessorView {
        if !self.conflict_reaches_account(conflict) {
            self
        } else {
            let target = self.transactions[conflict.tx];
            let tx = target.transaction;
            ProcessorView {
                accounts: self.accounts.insert(
                    tx.client,
                    match conflict.type_ {
                        ConflictType::Dispute => self.account(tx.client).dispute(tx.amount),
                        ConflictType::Resolve => self.account(tx.client).release(tx.amount),
                        ConflictType::Chargeback => self.account(tx.client).chargeback(tx.amount),
                    },
                ),
                transactions: if self.conflict_result(conflict) is Ok {
                    self.transactions.insert(
                        conflict.tx,
                        TransactionStoreValue { disputed: conflict.type_ is Dispute, ..target },
                    )
                } else {
                    self.transactions
                },
            }
        }
    }

    /// What an operation returns.
    pub open spec fn process_result(self, operation: Operation) -> PaymentResult<()> {
        match operation {
            Operation::Transaction(tx) => self.transaction_result(tx),
            Operation::Conflict(conflict) => self.conflict_result(conflict),
        }
    }

    /// Whether the arithmetic of an operation can be done exactly.
    pub open spec fn can_process(self, operation: Operation) -> bool {
        match operation {
            Operation::Transaction(tx) => self.can_transaction(tx),
            Operation::Conflict(conflict) => self.can_conflict(conflict),
        }
    }

    /// The processor after an operation.
    pub open spec fn process(self, operation: Operation) -> ProcessorView {
        match operation {
            Operation::Transaction(tx) => self.transaction(tx),
            Operation::Conflict(conflict) => self.conflict(conflict),
        }
    }

    /// The processor after a run of operations, applied in their order.
    pub open spec fn run(self, operations: Seq<Operation>) -> ProcessorView
        decreases operations.len(),
    {
        if operations.len() == 0 {
            self
        } else {
            self.run(operations.drop_last()).process(operations.last())
        }
    }

    /// Whether the arithmetic of every operation of a run can be done exactly.
    pub open spec fn can_run(self, operations: Seq<Operation>) -> bool {
        forall|i: int|
            0 <= i < operations.len() ==> #[trigger] self.run(operations.take(i)).can_process(
                operations[i],
            )
    }

    /// Whether no account holds less than nothing and no recorded amount is
    /// below zero.
    pub open spec fn amounts_non_negative(self) -> bool {
        &&& forall|client: ClientId| #[trigger]
            self.accounts.contains_key(client) ==> self.accounts[client].held@ >= 0
        &&& forall|tx: TransactionId| #[trigger]
            self.transactions.contains_key(tx) ==> self.transactions[tx].transaction.amount@ >= 0
    }

    /// Whether every account is stored under the client it belongs to, and
    /// every record under the number of its transaction.
    pub open spec fn consistent(self) -> bool {
        &&& forall|client: ClientId| #[trigger]
            self.accounts.contains_key(client) ==> self.accounts[client].client == client
        &&& forall|tx: TransactionId| #[trigger]
            self.transactions.contains_key(tx) ==> self.transactions[tx].transaction.tx == tx
    }

    /// An operation keeps every account under its client and every record
    /// under its number.
    pub proof fn lemma_process_keeps_consistency(self, operation: Operation)
        requires
            self.consistent(),
        ensures
            self.process(operation).consistent(),
    {
    }

    /// A run of operations keeps every account under its client and every
    /// record under its number.
    pub proof fn lemma_run_keeps_consistency(self, operations: Seq<Operation>)
        requires
            self.consistent(),
        ensures
            self.run(operations).consistent(),
        decreases operations.len(),
    {
        if operations.len() > 0 {
            self.lemma_run_keeps_consistency(operations.drop_last());
            self.run(operations.drop_last()).lemma_process_keeps_consistency(operations.last());
        }
    }

    /// An account that is locked stays locked, whatever operation is applied.
    pub proof fn lemma_process_keeps_lock(self, operation: Operation, client: ClientId)
        requires
            self.accounts.contains_key(client),
            self.accounts[client].locked,
        ensures
            self.process(operation).accounts.contains_key(client),
            self.process(operation).accounts[client].locked,
    {
    }

    /// An account that is locked stays locked through a run of operations:
    /// once locked at one step, it is locked at every later step.
    pub proof fn lemma_run_keeps_lock(self, operations: Seq<Operation>, client: ClientId)
        requires
            self.accounts.contains_key(client),
            self.accounts[client].locked,
        ensures
            self.run(operations).accounts.contains_key(client),
            self.run(operations).accounts[client].locked,
        decreases operations.len(),
    {
        if operations.len() > 0 {
            self.lemma_run_keeps_lock(operations.drop_last(), client);
            self.run(operations.drop_last()).lemma_process_keeps_lock(operations.last(), client);
        }
    }

    /// The lock is monotone along a run: an account that is locked after
    /// `step` operations is locked after every larger number of operations.
    pub proof fn lemma_lock_is_monotone(
        self,
        operations: Seq<Operation>,
        step: int,
        later: int,
        client: ClientId,
    )
        requires
            0 <= step <= later <= operations.len(),
            self.run(operations.take(step)).accounts.contains_key(client),
            self.run(operations.take(step)).accounts[client].locked,
        ensures
            self.run(operations.take(later)).accounts.contains_key(client),
            self.run(operations.take(later)).accounts[client].locked,
        decreases later - step,
    {
        if step < later {
            self.lemma_lock_is_monotone(operations, step, later - 1, client);
            let before = operations.take(later - 1);
            let now = operations.take(later);
            assert(now.drop_last() =~= before);
            self.run(before).lemma_process_keeps_lock(now.last(), client);
        }
    }

    /// Where no held funds and no recorded amount are below zero, an
    /// operation with an amount that is not below zero keeps it so.
    pub proof fn lemma_process_keeps_held_non_negative(self, operation: Operation)
        requires
            self.amounts_non_negative(),
            operation matches Operation::Transaction(tx) ==> tx.amount@ >= 0,
            self.can_process(operation),
        ensures
            self.process(operation).amounts_non_negative(),
    {
    }

    /// Where no held funds and no recorded amount are below zero, a run of
    /// operations with amounts that are not below zero keeps it so.
    pub proof fn lemma_run_keeps_held_non_negative(self, operations: Seq<Operation>)
        requires
            self.amounts_non_negative(),
            forall|i: int|
                0 <= i < operations.len() ==> (#[trigger] operations[i] matches Operation::Transaction(
                    tx,
                ) ==> tx.amount@ >= 0),
            self.can_run(operations),
        ensures
            self.run(operations).amounts_non_negative(),
        decreases operations.len(),
    {
        if operations.len() > 0 {
            let before = operations.drop_last();
            assert forall|i: int| 0 <= i < before.len() implies #[trigger] self.run(
                before.take(i),
            ).can_process(before[i]) by {
                assert(before.take(i) =~= operations.take(i));
                assert(before[i] == operations[i]);
            }
            assert forall|i: int| 0 <= i < before.len() implies (#[trigger] before[i] matches Operation::Transaction(
                tx,
            ) ==> tx.amount@ >= 0) by {
                assert(before[i] == operations[i]);
            }
            self.lemma_run_keeps_held_non_negative(before);
            assert(operations.take(operations.len() - 1) =~= before);
            assert(operations.last() == operations[operations.len() - 1]);
            self.run(before).lemma_process_keeps_held_non_negative(operations.last());
        }
    }

    /// A dispute that is accepted and that a resolve of the same deposit
    /// follows leaves the available and the held funds of the client, and the
    /// recorded transactions, as they were.
    pub proof fn lemma_dispute_then_resolve(self, dispute: Conflict, resolve: Conflict)
        requires
            dispute.type_ is Dispute,
            resolve.type_ is Resolve,
            dispute.tx == resolve.tx,
            dispute.client == resolve.client,
            self.conflict_result(dispute) is Ok,
            self.account(dispute.client).held@ >= 0,
            self.can_conflict(dispute),
            self.conflict(dispute).can_conflict(resolve),
        ensures
            self.conflict(dispute).conflict_result(resolve) is Ok,
            self.conflict(dispute).conflict(resolve).account(dispute.client).available@
                == self.account(dispute.client).available@,
            self.conflict(dispute).conflict(resolve).account(dispute.client).held@ == self.account(
                dispute.client,
            ).held@,
            self.conflict(dispute).conflict(resolve).transactions == self.transactions,
    {
        let amount = self.transactions[dispute.tx].transaction.amount;
        self.account(dispute.client).lemma_dispute_then_release(amount);
        assert(self.conflict(dispute).conflict(resolve).transactions =~= self.transactions);
    }

    /// After a resolve or a chargeback that was accepted, or refused because
    /// the deposit was not under dispute, a second resolve or chargeback of the
    /// same deposit is refused as not disputed and changes nothing.
    pub proof fn lemma_settle_twice(self, first: Conflict, second: Conflict)
        requires
            !(first.type_ is Dispute),
            !(second.type_ is Dispute),
            first.tx == second.tx,
            first.client == second.client,
            self.conflict_result(first) is Ok || self.conflict_result(first)
                matches Err(PaymentError::TransactionNotDisputed { .. }),
        ensures
            self.conflict(first).conflict_result(second) == Err::<(), PaymentError>(
                PaymentError::TransactionNotDisputed {
                    id: self.transactions[first.tx].transaction.tx,
                },
            ),
            self.conflict(first).conflict(second) == self.conflict(first),
    {
    }

    /// After a chargeback that was accepted the account of the client is
    /// locked: a withdrawal under a new number is refused as `Locked` and not
    /// recorded, while a deposit under a new number is accepted.
    pub proof fn lemma_chargeback_then_transaction(self, chargeback: Conflict, next: Transaction)
        requires
            chargeback.type_ is Chargeback,
            self.conflict_result(chargeback) is Ok,
            next.client == chargeback.client,
            !self.transactions.contains_key(next.tx),
        ensures
            self.conflict(chargeback).account(next.client).locked,
            next.type_ is Deposit ==> self.conflict(chargeback).transaction_result(next) is Ok,
            next.type_ is Withdrawal ==> self.conflict(chargeback).transaction_result(next) == Err::<
                (),
                PaymentError,
            >(
                PaymentError::Withdrawal(
                    AccountError::Locked { client: self.account(next.client).client },
                ),
            ),
            next.type_ is Withdrawal ==> !self.conflict(chargeback).transaction(
                next,
            ).transactions.contains_key(next.tx),
    {
    }

    /// A conflict that names a withdrawal of its own client is refused as
    /// such, whatever its kind, and changes nothing.
    pub proof fn lemma_withdrawal_cannot_be_disputed(self, conflict: Conflict)
        requires
            self.transactions.contains_key(conflict.tx),
            self.transactions[conflict.tx].transaction.client == conflict.client,
            self.transactions[conflict.tx].transaction.type_ is Withdrawal,
        ensures
            self.conflict_result(conflict) == Err::<(), PaymentError>(
                PaymentError::WithdrawalCannotBeDisputed {
                    tx: self.transactions[conflict.tx].transaction.tx,
                },
            ),
            self.conflict(conflict) == self,
    {
    }

    /// A conflict that names the transaction of another client is refused for
    /// that, whatever else is wrong with it, and changes nothing.
    pub proof fn lemma_client_mismatch_comes_first(self, conflict: Conflict)
        requires
            self.transactions.contains_key(conflict.tx),
            self.transactions[conflict.tx].transaction.client != conflict.client,
        ensures
            self.conflict_result(conflict) == Err::<(), PaymentError>(
                PaymentError::ConflictClientMismatch {
                    tx: self.transactions[conflict.tx].transaction.tx,
                    expected: self.transactions[conflict.tx].transaction.client,
                    actual: conflict.client,
                },
            ),
            self.conflict(conflict) == self,
    {
    }

    /// An operation that fails changes no balance, no lock and no record: the
    /// recorded transactions are as they were, and so is the account that any
    /// client is found to have. All it may leave behind is the empty account of
    /// a client that had none.
    pub proof fn lemma_failure_changes_nothing(self, operation: Operation)
        requires
            self.process_result(operation) is Err,
        ensures
            self.process(operation).transactions == self.transactions,
            forall|client: ClientId| #[trigger]
                self.process(operation).account(client) == self.account(client),
            forall|client: ClientId| #[trigger]
                self.accounts.contains_key(client) ==> self.process(operation).accounts.contains_key(
                    client,
                ),
    {
        assert(self.process(operation).transactions =~= self.transactions);
    }

    /// A deposit or a withdrawal under a number that is recorded already is
    /// refused as a conflict and changes nothing.
    pub proof fn lemma_duplicate_changes_nothing(self, tx: Transaction)
        requires
            self.transactions.contains_key(tx.tx),
        ensures
            self.transaction_result(tx) == Err::<(), PaymentError>(
                PaymentError::Transaction(TransactionError::Conflict { id: tx.tx }),
            ),
            self.transaction(tx) == self,
    {
    }
}

/// A processor: the accounts and the recorded transactions of its clients.
pub struct PaymentProcessor {
    accounts: AccountStore,
    transactions: TransactionStore,
}

impl View for PaymentProcessor {
    type V = ProcessorView;

    closed spec fn view(&self) -> ProcessorView {
        ProcessorView { accounts: self.accounts@, transactions: self.transactions@ }
    }
}

impl PaymentProcessor {
    /// A processor that has handled nothing yet.
    pub fn new() -> (r: PaymentProcessor)
        ensures
            r@ == ProcessorView::empty(),
    {
        PaymentProcessor { accounts: AccountStore::new(), transactions: TransactionStore::new() }
    }

    /// The accounts as they stand.
    pub fn accounts(&self) -> (r: &AccountStore)
        ensures
            r@ == self@.accounts,
    {
        &self.accounts
    }

    /// Hands out the accounts and ends the processor.
    pub fn into_accounts(self) -> (r: AccountStore)
        ensures
            r@ == self@.accounts,
    {
        self.accounts
    }

    /// Applies a deposit or a withdrawal. Its place in the transaction store
    /// is reserved first, and the transaction is recorded only once the
    /// account has accepted it.
    pub fn transaction(&mut self, tx: Transaction) -> (r: PaymentResult<()>)
        requires
            old(self)@.can_transaction(tx),
        ensures
            r == old(self)@.transaction_result(tx),
            final(self)@ == old(self)@.transaction(tx),
    {
        let lock = match self.transactions.lock_for_insert(tx) {
            Ok(lock) => lock,
            Err(e) => {
                return Err(PaymentError::from(e));
            },
        };
        match tx.type_ {
            TransactionType::Deposit => {
                match self.accounts.get_mut(tx.client).deposit(tx.amount) {
                    Ok(_) => {},
                    Err(e) => {
                        return Err(PaymentError::Deposit(e));
                    },
                }
            },
            TransactionType::Withdrawal => {
                match self.accounts.get_mut(tx.client).withdraw(tx.amount) {
                    Ok(_) => {},
                    Err(e) => {
                        return Err(PaymentError::Withdrawal(e));
                    },
                }
            },
        }
        lock.finish();
        Ok(())
    }

    /// Applies a dispute, a resolve or a chargeback to the deposit it names,
    /// with the amount of that deposit.
    pub fn conflict(&mut self, conflict: Conflict) -> (r: PaymentResult<()>)
        requires
            old(self)@.can_conflict(conflict),
        ensures
            r == old(self)@.conflict_result(conflict),
            final(self)@ == old(self)@.conflict(conflict),
    {
        let target = match self.transactions.get_mut(conflict.tx) {
            Ok(target) => target,
            Err(e) => {
                return Err(PaymentError::from(e));
            },
        };
        let tx = target.transaction.tx;
        let client = target.transaction.client;
        let amount = target.transaction.amount;
        if client != conflict.client {
            return Err(
                PaymentError::ConflictClientMismatch { tx, expected: client, actual: conflict.client },
            );
        } else if matches!(target.transaction.type_, TransactionType::Withdrawal) {
            return Err(PaymentError::WithdrawalCannotBeDisputed { tx });
        }
        match conflict.type_ {
            ConflictType::Dispute => {
                if target.disputed {
                    return Err(PaymentError::TransactionAlreadyDisputed { id: tx });
                }
                match self.accounts.get_mut(client).dispute(amount) {
                    Ok(_) => {},
                    Err(e) => {
                        return Err(PaymentError::Hold(e));
                    },
                }
                target.disputed = true;
            },
            ConflictType::Resolve => {
                if !target.disputed {
                    return Err(PaymentError::TransactionNotDisputed { id: tx });
                }
                match self.accounts.get_mut(client).release(amount) {
                    Ok(_) => {},
                    Err(e) => {
                        return Err(PaymentError::Release(e));
                    },
                }
                target.disputed = false;
            },
            ConflictType::Chargeback => {
                if !target.disputed {
                    return Err(PaymentError::TransactionNotDisputed { id: tx });
                }
                match self.accounts.get_mut(client).chargeback(amount) {
                    Ok(_) => {},
                    Err(e) => {
                        return Err(PaymentError::Chargeback(e));
                    },
                }
                target.disputed = false;
            },
        }
        Ok(())
    }

    /// Applies one operation.
    pub fn process(&mut self, operation: Operation) -> (r: PaymentResult<()>)
        requires
            old(self)@.can_process(operation),
        ensures
            r == old(self)@.process_result(operation),
            final(self)@ == old(self)@.process(operation),
    {
        match operation {
            Operation::Transaction(tx) => self.transaction(tx),
            Operation::Conflict(dispute) => self.conflict(dispute),
        }
    }

    /// The account of `client` as an operation would find it.
    fn account_of(&self, client: ClientId) -> (r: Account)
        ensures
            r@ == self@.account(client),
    {
        match self.accounts.get(client) {
            Some(account) => *account,
            None => Account::new(client),
        }
    }

    /// Whether `process` can be called with `operation`: whether the sums and
    /// differences that the operation needs can be computed exactly.
    pub fn applicable(&self, operation: &Operation) -> (r: bool)
        ensures
            r == self@.can_process(*operation),
    {
        match operation {
            Operation::Transaction(tx) => {
                if self.transactions.get(tx.tx).is_some() {
                    true
                } else {
                    let account = self.account_of(tx.client);
                    match tx.type_ {
                        TransactionType::Deposit => account.can_deposit(tx.amount),
                        TransactionType::Withdrawal => account.can_withdraw(tx.amount),
                    }
                }
            },
            Operation::Conflict(conflict) => {
                match self.transactions.get(conflict.tx) {
                    None => true,
                    Some(target) => {
                        let tx = target.transaction;
                        if tx.client != conflict.client {
                            true
                        } else if matches!(tx.type_, TransactionType::Withdrawal) {
                            true
                        } else {
                            let account = self.account_of(tx.client);
                            match conflict.type_ {
                                ConflictType::Dispute => target.disputed || account.can_dispute(
                                    tx.amount,
                                ),
                                ConflictType::Resolve => !target.disputed || account.can_release(
                                    tx.amount,
                                ),
                                ConflictType::Chargeback => !target.disputed
                                    || account.can_chargeback(tx.amount),
                            }
                        }
                    },
                }
            },
        }
    }

    /// Applies one operation, if its arithmetic can be done exactly; otherwise
    /// the processor is left as it was and `None` is returned.
    pub fn try_process(&mut self, operation: Operation) -> (r: Option<PaymentResult<()>>)
        ensures
            r is Some <==> old(self)@.can_process(operation),
            r matches Some(result) ==> result == old(self)@.process_result(operation),
            r is Some ==> final(self)@ == old(self)@.process(operation),
            r is None ==> final(self)@ == old(self)@,
    {
        if self.applicable(&operation) {
            Some(self.process(operation))
        } else {
            None
        }
    }

    /// Applies the operations in their order and hands out the accounts. An
    /// operation that fails is dropped, and the run goes on. Where the
    /// arithmetic of an operation cannot be done exactly, the processor stops:
    /// no accounts are handed out.
    pub fn run(self, operations: Vec<Operation>) -> (r: PaymentResult<AccountStore>)
        ensures
            r is Ok <==> self@.can_run(operations@),
            r matches Ok(accounts) ==> accounts@ == self@.run(operations@).accounts,
            r matches Err(e) ==> e == PaymentError::JoiningProcessors,
            self@.consistent() ==> (r matches Ok(accounts) ==> forall|client: ClientId| #[trigger]
                accounts@.contains_key(client) ==> accounts@[client].client == client),
    {
        let ghost start = self@;
        proof {
            if start.consistent() {
                start.lemma_run_keeps_consistency(operations@);
            }
        }
        let mut processor = self;
        let mut i: usize = 0;
        while i < operations.len()
            invariant
                i <= operations@.len(),
                start == self@,
                processor@ == start.run(operations@.take(i as int)),
                forall|j: int|
                    0 <= j < i ==> #[trigger] start.run(operations@.take(j)).can_process(
                        operations@[j],
                    ),
            decreases operations@.len() - i,
        {
            let operation = operations[i];
            if processor.try_process(operation).is_none() {
                proof {
                    assert(!start.run(operations@.take(i as int)).can_process(operations@[i as int]));
                }
                return Err(PaymentError::JoiningProcessors);
            }
            proof {
                let next = operations@.take(i + 1);
                assert(next.drop_last() =~= operations@.take(i as int));
                assert(next.last() == operation);
            }
            i = i + 1;
        }
        proof {
            assert(operations@.take(i as int) =~= operations@);
        }
        Ok(processor.accounts)
    }
}

impl Default for PaymentProcessor {
    /// A processor that has handled nothing yet.
    fn default() -> (r: PaymentProcessor)
        ensures
            r@ == ProcessorView::empty(),
    {
        PaymentProcessor::new()
    }
}

} // verus!
