use payment_engine::account::{Account, AccountError, AccountStore};
use payment_engine::money::Money;
use payment_engine::operation::{Conflict, Operation, Transaction, TransactionError};
use payment_engine::{PaymentError, PaymentProcessor};

fn account(client: u16, available: i32, held: i32, locked: bool) -> Account {
    Account::create(client, Money::from(available), Money::from(held), locked)
}

fn deposit(client: u16, tx: u32, amount: i32) -> Transaction {
    Transaction::deposit(client, tx, Money::from(amount))
}

fn withdrawal(client: u16, tx: u32, amount: i32) -> Transaction {
    Transaction::withdrawal(client, tx, Money::from(amount))
}

fn sorted_accounts(accounts: &AccountStore) -> Vec<Account> {
    let mut entries = accounts.entries();
    entries.sort_by_key(|(client, _)| *client);
    entries.into_iter().map(|(_, acc)| acc).collect()
}

#[test]
fn conflict_client_mismatch() {
    let mut p = PaymentProcessor::new();
    p.transaction(deposit(1, 1, 1)).unwrap();

    assert_eq!(
        p.conflict(Conflict::dispute(2, 1)),
        Err(PaymentError::ConflictClientMismatch {
            tx: 1,
            expected: 1,
            actual: 2
        })
    );
}

#[test]
fn withdrawal_cannot_be_disputed() {
    let mut p = PaymentProcessor::new();
    p.transaction(deposit(1, 1, 1)).unwrap();
    p.transaction(withdrawal(1, 2, 1)).unwrap();

    assert_eq!(
        p.conflict(Conflict::dispute(1, 2)),
        Err(PaymentError::WithdrawalCannotBeDisputed { tx: 2 })
    )
}

#[test]
fn tx_already_disputed() {
    let mut p = PaymentProcessor::new();
    p.transaction(deposit(1, 1, 1)).unwrap();
    p.conflict(Conflict::dispute(1, 1)).unwrap();

    assert_eq!(
        p.conflict(Conflict::dispute(1, 1)),
        Err(PaymentError::TransactionAlreadyDisputed { id: 1 })
    );
}

#[test]
fn tx_not_disputed() {
    let mut p = PaymentProcessor::new();
    p.transaction(deposit(1, 1, 1)).unwrap();

    assert_eq!(
        p.conflict(Conflict::resolve(1, 1)),
        Err(PaymentError::TransactionNotDisputed { id: 1 })
    );
    assert_eq!(
        p.conflict(Conflict::chargeback(1, 1)),
        Err(PaymentError::TransactionNotDisputed { id: 1 })
    );
}

#[test]
fn processor_payment_flow() {
    let mut p = PaymentProcessor::new();

    p.transaction(deposit(1, 1, 10)).unwrap();
    p.transaction(deposit(1, 2, 20)).unwrap();
    p.transaction(withdrawal(1, 3, 10)).unwrap();
    // Account { client: 1, available: 20, held: 0, locked: false }
    // Account { client: 2, available: 0, held: 0, locked: false }

    assert_eq!(
        p.transaction(deposit(2, 2, 20)),
        Err(PaymentError::Transaction(TransactionError::Conflict {
            id: 2
        }))
    );

    p.transaction(deposit(2, 4, 20)).unwrap();
    // Account { client: 1, available: 20, held: 0, locked: false }
    // Account { client: 2, available: 20, held: 0, locked: false }
    p.conflict(Conflict::dispute(1, 1)).unwrap();
    // Account { client: 1, available: 10, held: 10, locked: false }
    // Account { client: 2, available: 20, held: 0, locked: false }

    assert_eq!(
        sorted_accounts(p.accounts()),
        vec![account(1, 10, 10, false), account(2, 20, 0, false),]
    );

    assert_eq!(
        p.conflict(Conflict::dispute(2, 2)),
        Err(PaymentError::ConflictClientMismatch {
            tx: 2,
            expected: 1,
            actual: 2
        })
    );
    assert_eq!(
        p.conflict(Conflict::resolve(2, 4)),
        Err(PaymentError::TransactionNotDisputed { id: 4 })
    );

    p.conflict(Conflict::dispute(2, 4)).unwrap();
    // Account { client: 1, available: 10, held: 10, locked: false }
    // Account { client: 2, available: 0, held: 20, locked: false }

    assert_eq!(
        sorted_accounts(p.accounts()),
        vec![account(1, 10, 10, false), account(2, 0, 20, false),]
    );

    p.conflict(Conflict::dispute(1, 2)).unwrap();
    // Account { client: 1, available: -10, held: 30, locked: false }
    // Account { client: 2, available: 0, held: 20, locked: false }

    assert_eq!(
        sorted_accounts(p.accounts()),
        vec![account(1, -10, 30, false), account(2, 0, 20, false),]
    );

    assert_eq!(
        p.conflict(Conflict::chargeback(1, 3)),
        Err(PaymentError::WithdrawalCannotBeDisputed { tx: 3 })
    );

    p.conflict(Conflict::chargeback(1, 1)).unwrap();
    // Account { client: 1, available: -10, held: 20, locked: true }
    // Account { client: 2, available: 0, held: 20, locked: false }

    assert_eq!(
        sorted_accounts(p.accounts()),
        vec![account(1, -10, 20, true), account(2, 0, 20, false),]
    );

    // withdrawal is now locked for client 1
    assert_eq!(
        p.transaction(withdrawal(1, 5, 15)),
        Err(PaymentError::Withdrawal(AccountError::Locked { client: 1 }))
    );

    // but he can still deposit to level out debt
    p.transaction(deposit(1, 5, 10)).unwrap();
    assert_eq!(
        sorted_accounts(p.accounts()),
        vec![account(1, 0, 20, true), account(2, 0, 20, false),]
    );

    // disputes can still happen though
    p.conflict(Conflict::resolve(1, 2)).unwrap();
    assert_eq!(
        sorted_accounts(p.accounts()),
        vec![account(1, 20, 0, true), account(2, 0, 20, false),]
    );

    p.conflict(Conflict::dispute(1, 2)).unwrap();
    // Account { client: 1, available: 0, held: 20, locked: true }
    // Account { client: 2, available: 0, held: 20, locked: false }
    p.conflict(Conflict::chargeback(1, 2)).unwrap();
    // Account { client: 1, available: 0, held: 0, locked: true }
    // Account { client: 2, available: 0, held: 20, locked: false }

    assert_eq!(
        sorted_accounts(p.accounts()),
        vec![account(1, 0, 0, true), account(2, 0, 20, false),]
    );
}

#[test]
fn unknown_transaction_is_not_found() {
    let mut p = PaymentProcessor::new();
    assert_eq!(
        p.conflict(Conflict::dispute(1, 1)),
        Err(PaymentError::Transaction(TransactionError::NotFound { id: 1 }))
    );
    assert_eq!(sorted_accounts(p.accounts()), vec![]);
}

#[test]
fn a_rejected_withdrawal_is_not_recorded_but_touches_the_account() {
    let mut p = PaymentProcessor::new();
    assert_eq!(
        p.transaction(withdrawal(1, 1, 5)),
        Err(PaymentError::Withdrawal(
            AccountError::InsufficientAvailable {
                needed: Money::from(5),
                available: Money::from(0),
                client: 1
            }
        ))
    );
    // the client has been touched, so the account is there
    assert_eq!(sorted_accounts(p.accounts()), vec![account(1, 0, 0, false)]);
    // a conflict that names the rejected withdrawal finds nothing
    assert_eq!(
        p.conflict(Conflict::dispute(1, 1)),
        Err(PaymentError::Transaction(TransactionError::NotFound { id: 1 }))
    );
    // and its number is still free
    assert_eq!(p.transaction(deposit(1, 1, 5)), Ok(()));
    assert_eq!(sorted_accounts(p.accounts()), vec![account(1, 5, 0, false)]);
}

#[test]
fn a_duplicate_number_changes_nothing() {
    let mut p = PaymentProcessor::new();
    p.transaction(deposit(1, 1, 10)).unwrap();
    assert_eq!(
        p.transaction(withdrawal(1, 1, 3)),
        Err(PaymentError::Transaction(TransactionError::Conflict {
            id: 1
        }))
    );
    assert_eq!(
        p.transaction(deposit(9, 1, 3)),
        Err(PaymentError::Transaction(TransactionError::Conflict {
            id: 1
        }))
    );
    // client 9 was not touched: the number is checked first
    assert_eq!(sorted_accounts(p.accounts()), vec![account(1, 10, 0, false)]);
    // the record is still the deposit of 10
    p.conflict(Conflict::dispute(1, 1)).unwrap();
    assert_eq!(sorted_accounts(p.accounts()), vec![account(1, 0, 10, false)]);
}

#[test]
fn dispute_then_resolve_restores_the_balances() {
    let mut p = PaymentProcessor::new();
    p.transaction(deposit(1, 1, 100)).unwrap();
    assert_eq!(sorted_accounts(p.accounts()), vec![account(1, 100, 0, false)]);
    p.conflict(Conflict::dispute(1, 1)).unwrap();
    assert_eq!(sorted_accounts(p.accounts()), vec![account(1, 0, 100, false)]);
    p.conflict(Conflict::resolve(1, 1)).unwrap();
    assert_eq!(sorted_accounts(p.accounts()), vec![account(1, 100, 0, false)]);
    // and the deposit can be disputed again
    assert_eq!(p.conflict(Conflict::dispute(1, 1)), Ok(()));
}

#[test]
fn resolve_or_chargeback_twice() {
    let mut p = PaymentProcessor::new();
    p.transaction(deposit(1, 1, 10)).unwrap();
    p.transaction(deposit(1, 2, 20)).unwrap();
    p.conflict(Conflict::dispute(1, 1)).unwrap();
    p.conflict(Conflict::dispute(1, 2)).unwrap();

    p.conflict(Conflict::resolve(1, 1)).unwrap();
    let after = sorted_accounts(p.accounts());
    assert_eq!(after, vec![account(1, 10, 20, false)]);
    assert_eq!(
        p.conflict(Conflict::resolve(1, 1)),
        Err(PaymentError::TransactionNotDisputed { id: 1 })
    );
    assert_eq!(
        p.conflict(Conflict::chargeback(1, 1)),
        Err(PaymentError::TransactionNotDisputed { id: 1 })
    );
    assert_eq!(sorted_accounts(p.accounts()), after);

    p.conflict(Conflict::chargeback(1, 2)).unwrap();
    let after = sorted_accounts(p.accounts());
    assert_eq!(after, vec![account(1, 10, 0, true)]);
    assert_eq!(
        p.conflict(Conflict::chargeback(1, 2)),
        Err(PaymentError::TransactionNotDisputed { id: 2 })
    );
    assert_eq!(
        p.conflict(Conflict::resolve(1, 2)),
        Err(PaymentError::TransactionNotDisputed { id: 2 })
    );
    assert_eq!(sorted_accounts(p.accounts()), after);
}

#[test]
fn chargeback_locks_deposit_goes_on_withdrawal_does_not() {
    let mut p = PaymentProcessor::new();
    p.transaction(deposit(1, 1, 50)).unwrap();
    p.conflict(Conflict::dispute(1, 1)).unwrap();
    p.conflict(Conflict::chargeback(1, 1)).unwrap();
    assert_eq!(sorted_accounts(p.accounts()), vec![account(1, 0, 0, true)]);

    assert_eq!(p.transaction(deposit(1, 2, 7)), Ok(()));
    assert_eq!(
        p.transaction(withdrawal(1, 3, 1)),
        Err(PaymentError::Withdrawal(AccountError::Locked { client: 1 }))
    );
    assert_eq!(sorted_accounts(p.accounts()), vec![account(1, 7, 0, true)]);
}

#[test]
fn a_withdrawal_that_is_the_only_record_cannot_be_disputed() {
    let mut p = PaymentProcessor::new();
    p.transaction(deposit(1, 1, 10)).unwrap();
    p.transaction(withdrawal(1, 2, 5)).unwrap();
    for conflict in [
        Conflict::dispute(1, 2),
        Conflict::resolve(1, 2),
        Conflict::chargeback(1, 2),
    ] {
        assert_eq!(
            p.conflict(conflict),
            Err(PaymentError::WithdrawalCannotBeDisputed { tx: 2 })
        );
    }
    assert_eq!(sorted_accounts(p.accounts()), vec![account(1, 5, 0, false)]);
}

#[test]
fn client_mismatch_comes_before_every_other_check() {
    let mut p = PaymentProcessor::new();
    p.transaction(deposit(1, 1, 10)).unwrap();
    p.transaction(withdrawal(1, 2, 5)).unwrap();
    // tx 2 is a withdrawal, and tx 1 is not disputed: the wrong client is reported all the same
    for conflict in [
        Conflict::dispute(2, 2),
        Conflict::resolve(2, 2),
        Conflict::chargeback(2, 2),
    ] {
        assert_eq!(
            p.conflict(conflict),
            Err(PaymentError::ConflictClientMismatch {
                tx: 2,
                expected: 1,
                actual: 2
            })
        );
    }
    assert_eq!(
        p.conflict(Conflict::resolve(2, 1)),
        Err(PaymentError::ConflictClientMismatch {
            tx: 1,
            expected: 1,
            actual: 2
        })
    );
    assert_eq!(sorted_accounts(p.accounts()), vec![account(1, 5, 0, false)]);
}

#[test]
fn release_and_chargeback_can_fail_for_want_of_held_funds() {
    let mut p = PaymentProcessor::new();
    // a negative deposit, once disputed, leaves less than nothing held
    p.transaction(deposit(1, 1, -5)).unwrap();
    p.transaction(deposit(1, 2, 3)).unwrap();
    p.conflict(Conflict::dispute(1, 1)).unwrap();
    p.conflict(Conflict::dispute(1, 2)).unwrap();
    assert_eq!(sorted_accounts(p.accounts()), vec![account(1, 0, -2, false)]);
    assert_eq!(
        p.conflict(Conflict::resolve(1, 2)),
        Err(PaymentError::Release(AccountError::InsufficientHeld {
            needed: Money::from(3),
            held: Money::from(-2),
            client: 1
        }))
    );
    assert_eq!(
        p.conflict(Conflict::chargeback(1, 2)),
        Err(PaymentError::Chargeback(AccountError::InsufficientHeld {
            needed: Money::from(3),
            held: Money::from(-2),
            client: 1
        }))
    );
    // the deposit stays disputed and the account is as it was
    assert_eq!(
        p.conflict(Conflict::dispute(1, 2)),
        Err(PaymentError::TransactionAlreadyDisputed { id: 2 })
    );
    assert_eq!(sorted_accounts(p.accounts()), vec![account(1, 0, -2, false)]);
}

#[test]
fn process_takes_both_kinds_of_operation() {
    let mut p = PaymentProcessor::default();
    assert_eq!(p.process(Operation::from(deposit(1, 1, 10))), Ok(()));
    assert_eq!(p.process(Operation::from(Conflict::dispute(1, 1))), Ok(()));
    assert_eq!(
        p.process(Operation::from(Conflict::dispute(1, 1))),
        Err(PaymentError::TransactionAlreadyDisputed { id: 1 })
    );
    assert_eq!(sorted_accounts(p.accounts()), vec![account(1, 0, 10, false)]);
}

#[test]
fn run_drops_failed_operations_and_goes_on() {
    let operations = vec![
        Operation::from(deposit(1, 1, 10)),
        Operation::from(withdrawal(1, 2, 50)),
        Operation::from(Conflict::resolve(1, 1)),
        Operation::from(deposit(1, 1, 99)),
        Operation::from(withdrawal(1, 3, 4)),
    ];
    let accounts = PaymentProcessor::new().run(operations).unwrap();
    assert_eq!(sorted_accounts(&accounts), vec![account(1, 6, 0, false)]);
}

#[test]
fn run_stops_where_the_arithmetic_is_not_exact() {
    let most = Money::from_parts(79_228_162_514_264_337_593_543_950_335, 0).unwrap();
    let operations = vec![
        Operation::from(Transaction::deposit(1, 1, most)),
        Operation::from(deposit(1, 2, 1)),
    ];
    let p = PaymentProcessor::new();
    assert!(p.applicable(&operations[0]));
    assert_eq!(
        p.run(operations.clone()).unwrap_err(),
        PaymentError::JoiningProcessors
    );

    let mut p = PaymentProcessor::new();
    p.process(operations[0]).unwrap();
    assert!(!p.applicable(&operations[1]));
    // a withdrawal is still possible
    assert!(p.applicable(&Operation::from(withdrawal(1, 3, 1))));
    // and so is what needs no arithmetic
    assert!(p.applicable(&Operation::from(deposit(1, 1, 1))));
    assert!(p.applicable(&Operation::from(Conflict::resolve(1, 1))));
    assert!(p.applicable(&Operation::from(Conflict::dispute(2, 1))));
    assert!(p.applicable(&Operation::from(Conflict::dispute(1, 9))));
}

#[test]
fn try_process_changes_nothing_where_the_arithmetic_is_not_exact() {
    let most = Money::from_parts(79_228_162_514_264_337_593_543_950_335, 0).unwrap();
    let mut p = PaymentProcessor::new();
    assert_eq!(
        p.try_process(Operation::from(Transaction::deposit(1, 1, most))),
        Some(Ok(()))
    );
    assert_eq!(p.try_process(Operation::from(deposit(1, 2, 1))), None);
    // nothing was recorded and nothing was added
    assert_eq!(
        p.try_process(Operation::from(Conflict::dispute(1, 2))),
        Some(Err(PaymentError::Transaction(TransactionError::NotFound {
            id: 2
        })))
    );
    assert_eq!(
        p.try_process(Operation::from(withdrawal(1, 2, 1))),
        Some(Ok(()))
    );
    let accounts = p.into_accounts();
    let left = Money::from_parts(79_228_162_514_264_337_593_543_950_334, 0).unwrap();
    assert_eq!(
        sorted_accounts(&accounts),
        vec![Account::create(1, left, Money::zero(), false)]
    );
}

#[test]
fn amounts_with_decimal_places_are_kept_exactly() {
    let mut p = PaymentProcessor::new();
    let amount = |mantissa: i64, scale: u32| Money::new(mantissa, scale).unwrap();
    p.transaction(Transaction::deposit(1, 1, amount(10001, 4))).unwrap();
    p.transaction(Transaction::deposit(1, 2, amount(25, 1))).unwrap();
    p.transaction(Transaction::withdrawal(1, 3, amount(15, 1))).unwrap();
    p.conflict(Conflict::dispute(1, 1)).unwrap();
    assert_eq!(
        sorted_accounts(p.accounts()),
        vec![Account::create(1, amount(1, 0), amount(10001, 4), false)]
    );
    let account = sorted_accounts(p.accounts())[0];
    assert_eq!(account.total(), amount(20001, 4));
    p.conflict(Conflict::chargeback(1, 1)).unwrap();
    assert_eq!(
        sorted_accounts(p.accounts()),
        vec![Account::create(1, amount(1, 0), amount(0, 0), true)]
    );
}
