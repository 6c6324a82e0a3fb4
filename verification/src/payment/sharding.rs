//! Why the number of processors does not matter: every processor handles the
//! operations of its clients as a single processor would, and the accounts
//! that are joined in the end are those that a single processor would hold.

use crate::account::ClientId;
use crate::operation::{Operation, Transaction, TransactionId};
use crate::payment::{
    merged_accounts, queue_of, shard_accounts, shard_of, shards_can_run, ProcessorView,
};
use vstd::prelude::*;

verus! {

/// Whether every transaction number of the input belongs to one client: no
/// two deposits or withdrawals of different clients carry the same number.
pub open spec fn numbers_belong_to_one_client(operations: Seq<Operation>) -> bool {
    forall|i: int, j: int|
        0 <= i < j < operations.len() ==> (#[trigger] operations[i] matches Operation::Transaction(
            first,
        ) ==> (#[trigger] operations[j] matches Operation::Transaction(second) ==> (first.tx
            == second.tx ==> first.client == second.client)))
}

/// The operations of the input that are about `client`, in their order.
pub open spec fn operations_of(operations: Seq<Operation>, client: ClientId) -> Seq<Operation> {
    operations.filter(|operation: Operation| operation.spec_client() == client)
}

/// Every record of `whole` is stored under its own number and stands for a
/// deposit or a withdrawal of `done`.
spec fn recorded_from(whole: ProcessorView, done: Seq<Operation>) -> bool {
    forall|tx: TransactionId| #[trigger]
        whole.transactions.contains_key(tx) ==> whole.transactions[tx].transaction.tx == tx
            && exists|j: int|
            0 <= j < done.len() && #[trigger] done[j] == Operation::Transaction(
                whole.transactions[tx].transaction,
            )
}

/// Processor `shard` of `workers` holds the part of `whole` that is about its
/// clients, and nothing else.
spec fn holds_its_part(whole: ProcessorView, part: ProcessorView, shard: nat, workers: nat) -> bool {
    &&& forall|client: ClientId|
        shard_of(client, workers) == shard ==> (#[trigger] whole.accounts.contains_key(client)
            <==> part.accounts.contains_key(client))
    &&& forall|client: ClientId|
        shard_of(client, workers) == shard && #[trigger] whole.accounts.contains_key(client)
            ==> whole.accounts[client] == part.accounts[client]
    &&& forall|client: ClientId|
        shard_of(client, workers) != shard ==> !#[trigger] part.accounts.contains_key(client)
    &&& forall|tx: TransactionId|
        #[trigger] whole.transactions.contains_key(tx) && shard_of(
            whole.transactions[tx].transaction.client,
            workers,
        ) == shard ==> part.transactions.contains_key(tx) && part.transactions[tx]
            == whole.transactions[tx]
    &&& forall|tx: TransactionId| #[trigger]
        part.transactions.contains_key(tx) ==> whole.transactions.contains_key(tx)
            && whole.transactions[tx] == part.transactions[tx] && shard_of(
            whole.transactions[tx].transaction.client,
            workers,
        ) == shard
}

/// A deposit or a withdrawal keeps the records tied to the input.
proof fn lemma_transaction_keeps_records(whole: ProcessorView, done: Seq<Operation>, tx: Transaction)
    requires
        recorded_from(whole, done),
    ensures
        recorded_from(whole.transaction(tx), done.push(Operation::Transaction(tx))),
{
    let next = whole.transaction(tx);
    let all = done.push(Operation::Transaction(tx));
    assert forall|number: TransactionId| #[trigger]
        next.transactions.contains_key(number) implies next.transactions[number].transaction.tx
        == number && exists|j: int|
        0 <= j < all.len() && #[trigger] all[j] == Operation::Transaction(
            next.transactions[number].transaction,
        ) by {
        if whole.transactions.contains_key(number) {
            let j = choose|j: int|
                0 <= j < done.len() && #[trigger] done[j] == Operation::Transaction(
                    whole.transactions[number].transaction,
                );
            assert(all[j] == done[j]);
        } else {
            assert(all[done.len() as int] == Operation::Transaction(tx));
        }
    }
}

/// A conflict keeps the records tied to the input.
proof fn lemma_conflict_keeps_records(
    whole: ProcessorView,
    done: Seq<Operation>,
    conflict: crate::operation::Conflict,
)
    requires
        recorded_from(whole, done),
    ensures
        recorded_from(whole.conflict(conflict), done.push(Operation::Conflict(conflict))),
{
    let next = whole.conflict(conflict);
    let all = done.push(Operation::Conflict(conflict));
    assert forall|number: TransactionId| #[trigger]
        next.transactions.contains_key(number) implies next.transactions[number].transaction.tx
        == number && exists|j: int|
        0 <= j < all.len() && #[trigger] all[j] == Operation::Transaction(
            next.transactions[number].transaction,
        ) by {
        assert(whole.transactions.contains_key(number));
        let j = choose|j: int|
            0 <= j < done.len() && #[trigger] done[j] == Operation::Transaction(
                whole.transactions[number].transaction,
            );
        assert(all[j] == done[j]);
    }
}

/// An operation keeps the records tied to the input.
proof fn lemma_process_keeps_records(whole: ProcessorView, done: Seq<Operation>, operation: Operation)
    requires
        recorded_from(whole, done),
    ensures
        recorded_from(whole.process(operation), done.push(operation)),
{
    match operation {
        Operation::Transaction(tx) => lemma_transaction_keeps_records(whole, done, tx),
        Operation::Conflict(conflict) => lemma_conflict_keeps_records(whole, done, conflict),
    }
}

/// The processor that serves the client of an operation does with it what a
/// single processor does.
proof fn lemma_own_shard_follows(
    whole: ProcessorView,
    part: ProcessorView,
    done: Seq<Operation>,
    operation: Operation,
    shard: nat,
    workers: nat,
)
    requires
        holds_its_part(whole, part, shard, workers),
        recorded_from(whole, done),
        numbers_belong_to_one_client(done.push(operation)),
        shard_of(operation.spec_client(), workers) == shard,
    ensures
        holds_its_part(whole.process(operation), part.process(operation), shard, workers),
        whole.can_process(operation) == part.can_process(operation),
{
    let all = done.push(operation);
    match operation {
        Operation::Transaction(tx) => {
            if whole.transactions.contains_key(tx.tx) {
                let j = choose|j: int|
                    0 <= j < done.len() && #[trigger] done[j] == Operation::Transaction(
                        whole.transactions[tx.tx].transaction,
                    );
                assert(all[j] == done[j]);
                assert(all[done.len() as int] == operation);
                assert(whole.transactions[tx.tx].transaction.client == tx.client);
                assert(part.transactions.contains_key(tx.tx));
            } else {
                assert(!part.transactions.contains_key(tx.tx));
                assert(whole.account(tx.client) == part.account(tx.client));
            }
        },
        Operation::Conflict(conflict) => {
            if whole.transactions.contains_key(conflict.tx) {
                if whole.transactions[conflict.tx].transaction.client == conflict.client {
                    assert(part.transactions.contains_key(conflict.tx));
                    assert(whole.account(conflict.client) == part.account(conflict.client));
                }
            }
        },
    }
}

/// A processor that does not serve the client of an operation still holds
/// its part when a single processor has applied the operation.
proof fn lemma_other_shard_stays(
    whole: ProcessorView,
    part: ProcessorView,
    operation: Operation,
    shard: nat,
    workers: nat,
)
    requires
        holds_its_part(whole, part, shard, workers),
        shard_of(operation.spec_client(), workers) != shard,
    ensures
        holds_its_part(whole.process(operation), part, shard, workers),
{
}

/// The queue of a processor grows by an operation if and only if the
/// processor serves the client of the operation.
proof fn lemma_queue_push(done: Seq<Operation>, operation: Operation, shard: nat, workers: nat)
    ensures
        queue_of(done.push(operation), shard, workers) == if shard_of(
            operation.spec_client(),
            workers,
        ) == shard {
            queue_of(done, shard, workers).push(operation)
        } else {
            queue_of(done, shard, workers)
        },
{
    let routed = |operation: Operation| shard_of(operation.spec_client(), workers) == shard;
    done.lemma_filter_push(operation, routed);
}

/// A run that is one operation longer applies that operation last.
proof fn lemma_run_push(start: ProcessorView, done: Seq<Operation>, operation: Operation)
    ensures
        start.run(done.push(operation)) == start.run(done).process(operation),
        start.can_run(done.push(operation)) == (start.can_run(done) && start.run(done).can_process(
            operation,
        )),
{
    let all = done.push(operation);
    assert(all.drop_last() =~= done);
    assert(all.last() == operation);
    if start.can_run(done) && start.run(done).can_process(operation) {
        assert forall|i: int| 0 <= i < all.len() implies #[trigger] start.run(
            all.take(i),
        ).can_process(all[i]) by {
            if i < done.len() {
                assert(all.take(i) =~= done.take(i));
                assert(all[i] == done[i]);
            } else {
                assert(all.take(i) =~= done);
            }
        }
    }
    if start.can_run(all) {
        assert forall|i: int| 0 <= i < done.len() implies #[trigger] start.run(
            done.take(i),
        ).can_process(done[i]) by {
            assert(all.take(i) =~= done.take(i));
            assert(all[i] == done[i]);
            assert(start.run(all.take(i)).can_process(all[i]));
        }
        assert(all.take(done.len() as int) =~= done);
        assert(start.run(all.take(done.len() as int)).can_process(all[done.len() as int]));
    }
}

/// After any input, every processor holds its part of what a single
/// processor holds, and the processors can do their arithmetic if and only if
/// the single processor can.
proof fn lemma_shards_follow(operations: Seq<Operation>, workers: nat)
    requires
        workers >= 1,
        numbers_belong_to_one_client(operations),
    ensures
        recorded_from(ProcessorView::empty().run(operations), operations),
        forall|shard: nat|
            shard < workers ==> #[trigger] holds_its_part(
                ProcessorView::empty().run(operations),
                ProcessorView::empty().run(queue_of(operations, shard, workers)),
                shard,
                workers,
            ),
        shards_can_run(operations, workers) == ProcessorView::empty().can_run(operations),
    decreases operations.len(),
{
    let start = ProcessorView::empty();
    if operations.len() == 0 {
        assert forall|shard: nat| shard < workers implies #[trigger] holds_its_part(
            start.run(operations),
            start.run(queue_of(operations, shard, workers)),
            shard,
            workers,
        ) by {
            assert(queue_of(operations, shard, workers).len() == 0) by {
                let routed = |operation: Operation|
                    shard_of(operation.spec_client(), workers) == shard;
                operations.lemma_filter_len(routed);
            }
        }
        assert forall|shard: nat| shard < workers implies #[trigger] start.can_run(
            queue_of(operations, shard, workers),
        ) by {
            let routed = |operation: Operation| shard_of(operation.spec_client(), workers) == shard;
            operations.lemma_filter_len(routed);
        }
    } else {
        let done = operations.drop_last();
        let operation = operations.last();
        assert(operations =~= done.push(operation));
        assert(numbers_belong_to_one_client(done)) by {
            assert forall|i: int, j: int| 0 <= i < j < done.len() implies (
            #[trigger] done[i] matches Operation::Transaction(first) ==> (
            #[trigger] done[j] matches Operation::Transaction(second) ==> (first.tx == second.tx
                ==> first.client == second.client))) by {
                assert(done[i] == operations[i]);
                assert(done[j] == operations[j]);
            }
        }
        lemma_shards_follow(done, workers);
        let whole = start.run(done);
        let own = shard_of(operation.spec_client(), workers);
        lemma_run_push(start, done, operation);
        lemma_process_keeps_records(whole, done, operation);
        assert(own < workers) by (nonlinear_arith)
            requires
                own == (crate::payment::client_hash(operation.spec_client()) as nat) % workers,
                workers >= 1,
        ;
        assert forall|shard: nat| shard < workers implies #[trigger] holds_its_part(
            start.run(operations),
            start.run(queue_of(operations, shard, workers)),
            shard,
            workers,
        ) by {
            let part = start.run(queue_of(done, shard, workers));
            assert(holds_its_part(whole, part, shard, workers));
            lemma_queue_push(done, operation, shard, workers);
            if shard == own {
                lemma_run_push(start, queue_of(done, shard, workers), operation);
                lemma_own_shard_follows(whole, part, done, operation, shard, workers);
            } else {
                lemma_other_shard_stays(whole, part, operation, shard, workers);
            }
        }
        // the processors can run if and only if the single processor can
        let own_part = start.run(queue_of(done, own, workers));
        assert(holds_its_part(whole, own_part, own, workers));
        lemma_own_shard_follows(whole, own_part, done, operation, own, workers);
        lemma_queue_push(done, operation, own, workers);
        lemma_run_push(start, queue_of(done, own, workers), operation);
        if shards_can_run(operations, workers) {
            assert forall|shard: nat| shard < workers implies #[trigger] start.can_run(
                queue_of(done, shard, workers),
            ) by {
                lemma_queue_push(done, operation, shard, workers);
                assert(start.can_run(queue_of(operations, shard, workers)));
                if shard == own {
                    lemma_run_push(start, queue_of(done, shard, workers), operation);
                }
            }
            assert(start.can_run(queue_of(operations, own, workers)));
            assert(start.can_run(operations));
        }
        if start.can_run(operations) {
            assert(shards_can_run(done, workers));
            assert forall|shard: nat| shard < workers implies #[trigger] start.can_run(
                queue_of(operations, shard, workers),
            ) by {
                lemma_queue_push(done, operation, shard, workers);
                assert(start.can_run(queue_of(done, shard, workers)));
                if shard == own {
                    lemma_run_push(start, queue_of(done, shard, workers), operation);
                }
            }
        }
    }
}

/// The accounts of the first `upto` processors, joined, are the accounts
/// that a single processor holds for the clients of these processors.
proof fn lemma_merged_is_part(operations: Seq<Operation>, workers: nat, upto: nat)
    requires
        workers >= 1,
        upto <= workers,
        numbers_belong_to_one_client(operations),
    ensures
        forall|client: ClientId| #[trigger]
            merged_accounts(operations, workers, upto).contains_key(client) <==> (
            ProcessorView::empty().run(operations).accounts.contains_key(client) && shard_of(
                client,
                workers,
            ) < upto),
        forall|client: ClientId| #[trigger]
            merged_accounts(operations, workers, upto).contains_key(client) ==> merged_accounts(
                operations,
                workers,
                upto,
            )[client] == ProcessorView::empty().run(operations).accounts[client],
    decreases upto,
{
    if upto > 0 {
        let shard = (upto - 1) as nat;
        lemma_merged_is_part(operations, workers, shard);
        lemma_shards_follow(operations, workers);
        let whole = ProcessorView::empty().run(operations);
        let part = ProcessorView::empty().run(queue_of(operations, shard, workers));
        assert(holds_its_part(whole, part, shard, workers));
        let before = merged_accounts(operations, workers, shard);
        let now = merged_accounts(operations, workers, upto);
        assert(now == before.union_prefer_right(shard_accounts(operations, shard, workers)));
        assert(shard_accounts(operations, shard, workers) == part.accounts);
        assert forall|client: ClientId| #[trigger] now.contains_key(client) <==> (
        whole.accounts.contains_key(client) && shard_of(client, workers) < upto) by {
            if shard_of(client, workers) == shard {
                assert(whole.accounts.contains_key(client) <==> part.accounts.contains_key(client));
            } else {
                assert(!part.accounts.contains_key(client));
            }
            assert(before.contains_key(client) <==> (whole.accounts.contains_key(client)
                && shard_of(client, workers) < shard));
        }
        assert forall|client: ClientId| #[trigger] now.contains_key(client) implies now[client]
            == whole.accounts[client] by {
            if part.accounts.contains_key(client) {
                assert(shard_of(client, workers) == shard);
                assert(whole.accounts.contains_key(client));
            } else {
                assert(before.contains_key(client));
            }
        }
    }
}

/// Every client's operations reach its processor in the order of the input,
/// and none is lost or added: the queue of the processor, read for that
/// client alone, is the input read for that client alone. This holds for
/// every number of processors.
pub proof fn lemma_client_order_is_kept(operations: Seq<Operation>, client: ClientId, workers: nat)
    requires
        workers >= 1,
    ensures
        operations_of(queue_of(operations, shard_of(client, workers), workers), client)
            == operations_of(operations, client),
    decreases operations.len(),
{
    let shard = shard_of(client, workers);
    let routed = |operation: Operation| shard_of(operation.spec_client(), workers) == shard;
    let about = |operation: Operation| operation.spec_client() == client;
    if operations.len() == 0 {
        operations.lemma_filter_len(routed);
        operations.filter(routed).lemma_filter_len(about);
        operations.lemma_filter_len(about);
        assert(operations.filter(routed).filter(about) =~= operations.filter(about));
    } else {
        let done = operations.drop_last();
        let operation = operations.last();
        assert(operations =~= done.push(operation));
        lemma_client_order_is_kept(done, client, workers);
        done.lemma_filter_push(operation, routed);
        done.lemma_filter_push(operation, about);
        if routed(operation) {
            done.filter(routed).lemma_filter_push(operation, about);
        }
    }
}

/// No operation of a client reaches a processor that does not serve the
/// client.
pub proof fn lemma_client_has_one_processor(
    operations: Seq<Operation>,
    client: ClientId,
    shard: nat,
    workers: nat,
)
    requires
        workers >= 1,
        shard != shard_of(client, workers),
    ensures
        operations_of(queue_of(operations, shard, workers), client) == Seq::<Operation>::empty(),
{
    let routed = |operation: Operation| shard_of(operation.spec_client(), workers) == shard;
    let about = |operation: Operation| operation.spec_client() == client;
    let queue = operations.filter(routed);
    assert forall|i: int| 0 <= i < queue.len() implies !about(#[trigger] queue[i]) by {
        operations.lemma_filter_pred(routed, i);
    }
    queue.lemma_all_neg_filter_empty(about);
    assert(queue.filter(about) =~= Seq::<Operation>::empty());
}

/// With any number of processors the engine hands out the accounts that a
/// single processor holds after the whole input, and it hands them out if and
/// only if the single processor can do its arithmetic exactly: provided that
/// every transaction number of the input belongs to one client.
pub proof fn lemma_engine_is_one_processor(operations: Seq<Operation>, workers: nat)
    requires
        workers >= 1,
        numbers_belong_to_one_client(operations),
    ensures
        shards_can_run(operations, workers) == ProcessorView::empty().can_run(operations),
        merged_accounts(operations, workers, workers) == ProcessorView::empty().run(
            operations,
        ).accounts,
{
    lemma_shards_follow(operations, workers);
    lemma_merged_is_part(operations, workers, workers);
    let whole = ProcessorView::empty().run(operations).accounts;
    assert forall|client: ClientId| whole.contains_key(client) implies merged_accounts(
        operations,
        workers,
        workers,
    ).contains_key(client) by {
        assert(shard_of(client, workers) < workers) by (nonlinear_arith)
            requires
                shard_of(client, workers) == (crate::payment::client_hash(client) as nat) % workers,
                workers >= 1,
        ;
    }
    assert(merged_accounts(operations, workers, workers) =~= whole);
}

/// The accounts that the engine hands out do not depend on the number of
/// processors, provided that every transaction number of the input belongs
/// to one client.
pub proof fn lemma_workers_do_not_matter(operations: Seq<Operation>, some: nat, other: nat)
    requires
        some >= 1,
        other >= 1,
        numbers_belong_to_one_client(operations),
    ensures
        shards_can_run(operations, some) == shards_can_run(operations, other),
        merged_accounts(operations, some, some) == merged_accounts(operations, other, other),
{
    lemma_engine_is_one_processor(operations, some);
    lemma_engine_is_one_processor(operations, other);
}

} // verus!
