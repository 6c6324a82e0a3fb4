use payment_engine::account::{Account, AccountStore, ClientId};
use payment_engine::money::Money;
use payment_engine::operation::{Conflict, Operation, Transaction};
use payment_engine::{dispatch_operation, shard_index, PaymentEngine, PaymentError};
use rand::seq::SliceRandom;
use std::collections::HashSet;

fn account(client: u16, available: i32, held: i32, locked: bool) -> Account {
    Account::create(client, Money::from(available), Money::from(held), locked)
}

fn deposit(client: u16, tx: u32, amount: i32) -> Operation {
    Operation::from(Transaction::deposit(client, tx, Money::from(amount)))
}

fn withdrawal(client: u16, tx: u32, amount: i32) -> Operation {
    Operation::from(Transaction::withdrawal(client, tx, Money::from(amount)))
}

fn dispute(client: u16, tx: u32) -> Operation {
    Operation::from(Conflict::dispute(client, tx))
}

fn resolve(client: u16, tx: u32) -> Operation {
    Operation::from(Conflict::resolve(client, tx))
}

fn chargeback(client: u16, tx: u32) -> Operation {
    Operation::from(Conflict::chargeback(client, tx))
}

fn sorted_accounts(accounts: &AccountStore) -> Vec<Account> {
    let mut entries = accounts.entries();
    entries.sort_by_key(|(client, _)| *client);
    entries.into_iter().map(|(_, acc)| acc).collect()
}

fn processed(worker: usize, operations: &[Operation]) -> Vec<Account> {
    let accounts = PaymentEngine::new(worker)
        .process(operations.to_vec())
        .unwrap();
    sorted_accounts(&accounts)
}

fn receive_all_clients(queue: &[Operation]) -> HashSet<ClientId> {
    let mut clients = HashSet::new();
    for operation in queue {
        clients.insert(operation.client());
    }

    clients
}

#[test]
fn dispatch() {
    // first create 10 queues to which we can dispatch operations
    let mut queues: Vec<Vec<Operation>> = (0..10).map(|_| Vec::new()).collect();

    // now create all kinds of operations with a thousand different
    // client and transaction ids, it doesn't matter if the order of the
    // operations makes no sense here as we just want to test that
    // they get dispatched to the correct processor
    let mut operations: Vec<Operation> = (0..1000u16)
        .flat_map(|i| {
            [
                (0..10)
                    .map(|j| Operation::from(Transaction::deposit(i, (i as u32) + j, Money::from(1))))
                    .collect::<Vec<_>>(),
                (0..10)
                    .map(|j| {
                        Operation::from(Transaction::withdrawal(i, (i as u32) + j, Money::from(1)))
                    })
                    .collect::<Vec<_>>(),
                (0..10)
                    .map(|j| Operation::from(Conflict::dispute(i, (i as u32) + j)))
                    .collect::<Vec<_>>(),
                (0..10)
                    .map(|j| Operation::from(Conflict::resolve(i, (i as u32) + j)))
                    .collect::<Vec<_>>(),
                (0..10)
                    .map(|j| Operation::from(Conflict::chargeback(i, (i as u32) + j)))
                    .collect::<Vec<_>>(),
            ]
            .into_iter()
            .flatten()
        })
        .collect();

    // shuffle all operations randomly to ensure there is no
    operations.shuffle(&mut rand::rng());

    // now dispatch all operations
    for operation in operations {
        dispatch_operation(operation, &mut queues).unwrap();
    }

    // collect all client ids of the dispatched operations into sets for each queue
    let sets: Vec<HashSet<ClientId>> = queues.iter().map(|q| receive_all_clients(q)).collect();

    // check that all sets are distinct, if thats the case two operations
    // for the same client were never sent to different queues
    for (i, set) in sets.iter().enumerate() {
        assert!(!set.is_empty());
        for other in sets.iter().skip(i + 1) {
            assert!(set.is_disjoint(other));
        }
    }
}

#[test]
fn routing_depends_on_the_client_alone() {
    for workers in [1usize, 2, 3, 4, 8, 10, 1000] {
        for client in [0u16, 1, 2, 255, 256, 1000, 65535] {
            let first = shard_index(client, workers);
            assert!(first < workers);
            for _ in 0..3 {
                assert_eq!(shard_index(client, workers), first);
            }
        }
    }
    for client in 0..100u16 {
        assert_eq!(shard_index(client, 1), 0);
    }
}

#[test]
fn dispatch_keeps_the_order_of_each_client() {
    let operations = vec![
        deposit(1, 1, 10),
        deposit(2, 2, 10),
        withdrawal(1, 3, 4),
        dispute(2, 2),
        deposit(3, 4, 1),
        resolve(2, 2),
        chargeback(1, 1),
    ];
    for workers in [1usize, 2, 3, 8] {
        let mut queues: Vec<Vec<Operation>> = (0..workers).map(|_| Vec::new()).collect();
        for operation in &operations {
            assert_eq!(dispatch_operation(*operation, &mut queues), Ok(()));
        }
        assert_eq!(queues.iter().map(|q| q.len()).sum::<usize>(), operations.len());
        for client in 1..=3u16 {
            let queue = &queues[shard_index(client, workers)];
            let routed: Vec<Operation> = queue
                .iter()
                .filter(|o| o.client() == client)
                .copied()
                .collect();
            let given: Vec<Operation> = operations
                .iter()
                .filter(|o| o.client() == client)
                .copied()
                .collect();
            assert_eq!(routed, given);
        }
    }
}

#[test]
fn basic_deposit_and_withdrawal() {
    let operations = [deposit(1, 1, 10), withdrawal(1, 2, 4)];
    let accounts = processed(2, &operations);
    assert_eq!(accounts, vec![account(1, 6, 0, false)]);
    assert_eq!(accounts[0].total(), Money::from(6));
}

#[test]
fn dispute_and_resolve() {
    assert_eq!(processed(1, &[deposit(1, 1, 100)]), vec![account(1, 100, 0, false)]);
    assert_eq!(
        processed(1, &[deposit(1, 1, 100), dispute(1, 1)]),
        vec![account(1, 0, 100, false)]
    );
    assert_eq!(
        processed(1, &[deposit(1, 1, 100), dispute(1, 1), resolve(1, 1)]),
        vec![account(1, 100, 0, false)]
    );
}

#[test]
fn dispute_and_chargeback_lock_the_account() {
    let operations = [
        deposit(1, 1, 50),
        dispute(1, 1),
        chargeback(1, 1),
        withdrawal(1, 2, 1),
    ];
    let accounts = processed(4, &operations);
    assert_eq!(accounts, vec![account(1, 0, 0, true)]);
    assert_eq!(accounts[0].total(), Money::from(0));
}

#[test]
fn disputed_withdrawal_is_rejected() {
    let operations = [deposit(1, 1, 10), withdrawal(1, 2, 5), dispute(1, 2)];
    assert_eq!(processed(3, &operations), vec![account(1, 5, 0, false)]);
}

#[test]
fn client_mismatch_leaves_the_state_as_it_was() {
    let operations = [deposit(1, 1, 10), withdrawal(1, 2, 5), dispute(2, 2)];
    // with one processor the dispute finds the withdrawal of client 1 and is refused
    assert_eq!(processed(1, &operations), vec![account(1, 5, 0, false)]);
    assert_eq!(processed(8, &operations), vec![account(1, 5, 0, false)]);
}

#[test]
fn dispute_can_drive_available_below_zero() {
    let operations = [deposit(1, 1, 100), withdrawal(1, 2, 90), dispute(1, 1)];
    let accounts = processed(2, &operations);
    assert_eq!(accounts, vec![account(1, -90, 100, false)]);
    assert_eq!(accounts[0].total(), Money::from(10));
}

#[test]
fn the_number_of_workers_does_not_matter() {
    let mut operations = Vec::new();
    let mut tx = 0u32;
    for round in 0..4 {
        for client in 0..40u16 {
            tx += 1;
            operations.push(deposit(client, tx, 10 + round));
            if client % 3 == 0 {
                operations.push(dispute(client, tx));
            }
            if client % 6 == 0 {
                operations.push(resolve(client, tx));
            }
            if client % 9 == 3 {
                operations.push(chargeback(client, tx));
            }
            tx += 1;
            operations.push(withdrawal(client, tx, 7));
            // one that is refused: the number of the deposit of the same client again
            operations.push(deposit(client, tx - 1, 1000));
            // and a conflict by the wrong client
            operations.push(dispute(client + 1, tx - 1));
        }
    }
    let one = processed(1, &operations);
    assert_eq!(one.len(), 40);
    for workers in [2usize, 4, 8, 13] {
        assert_eq!(processed(workers, &operations), one);
    }
}

#[test]
fn an_engine_without_input_hands_out_no_accounts() {
    assert_eq!(processed(3, &[]), vec![]);
    assert_eq!(PaymentEngine::new(5).workers(), 5);
}

#[test]
fn a_processor_that_stops_is_reported() {
    let most = Money::from_parts(79_228_162_514_264_337_593_543_950_335, 0).unwrap();
    let operations = vec![
        deposit(2, 1, 5),
        Operation::from(Transaction::deposit(1, 2, most)),
        deposit(1, 3, 1),
    ];
    for workers in [1usize, 2, 8] {
        assert_eq!(
            PaymentEngine::new(workers)
                .process(operations.clone())
                .unwrap_err(),
            PaymentError::JoiningProcessors
        );
    }
}
