//! The engine: it hands every operation to the processor that serves its
//! client, and joins what the processors hold when the input is used up.
//!
//! The processors of this module run one after the other, each on the queue
//! of operations that was routed to it.

pub use error::{PaymentError, PaymentResult};
pub use processor::{PaymentProcessor, ProcessorView};
pub use sharding::{
    lemma_client_has_one_processor, lemma_client_order_is_kept, lemma_engine_is_one_processor,
    lemma_workers_do_not_matter, numbers_belong_to_one_client, operations_of,
};

mod error;
mod processor;
mod sharding;

use crate::account::{AccountStore, AccountView, ClientId};
use crate::operation::Operation;
use std::collections::hash_map::DefaultHasher;
use std::hash::Hasher;
use vstd::bytes::{spec_u16_to_le_bytes, u16_to_le_bytes};
use vstd::prelude::*;
use vstd::std_specs::hash::DefaultHasherAdditionalSpecFns;

verus! {

/// The hash of a client: that of the two bytes of its number, low byte first.
pub open spec fn client_hash(client: ClientId) -> u64 {
    DefaultHasher::spec_finish(seq![spec_u16_to_le_bytes(client)])
}

/// The processor that serves `client` when there are `workers` of them.
pub open spec fn shard_of(client: ClientId, workers: nat) -> nat {
    (client_hash(client) as nat) % workers
}

/// The operations that are routed to processor `shard`, in the order of the
/// input.
pub open spec fn queue_of(operations: Seq<Operation>, shard: nat, workers: nat) -> Seq<Operation> {
    operations.filter(|operation: Operation| shard_of(operation.spec_client(), workers) == shard)
}

/// The accounts that processor `shard` holds when it has run its queue.
pub open spec fn shard_accounts(operations: Seq<Operation>, shard: nat, workers: nat) -> Map<
    ClientId,
    AccountView,
> {
    ProcessorView::empty().run(queue_of(operations, shard, workers)).accounts
}

/// The accounts of the first `upto` processors, joined into one store.
pub open spec fn merged_accounts(operations: Seq<Operation>, workers: nat, upto: nat) -> Map<
    ClientId,
    AccountView,
>
    decreases upto,
{
    if upto == 0 {
        Map::empty()
    } else {
        merged_accounts(operations, workers, (upto - 1) as nat).union_prefer_right(
            shard_accounts(operations, (upto - 1) as nat, workers),
        )
    }
}

/// Whether each of the processors can do the arithmetic of its queue exactly.
pub open spec fn shards_can_run(operations: Seq<Operation>, workers: nat) -> bool {
    forall|shard: nat|
        shard < workers ==> #[trigger] ProcessorView::empty().can_run(
            queue_of(operations, shard, workers),
        )
}

/// The number of the processor that serves `client`, of `workers` processors.
/// It depends on nothing but the client and the number of processors.
pub fn shard_index(client: ClientId, workers: usize) -> (r: usize)
    requires
        workers >= 1,
    ensures
        r == shard_of(client, workers as nat),
        r < workers,
{
    let mut hasher = DefaultHasher::new();
    let bytes = u16_to_le_bytes(client);
    hasher.write(bytes.as_slice());
    let hash = hasher.finish();
    assert(hasher@ =~= seq![spec_u16_to_le_bytes(client)]);
    (hash % (workers as u64)) as usize
}

/// Puts `operation` at the end of the queue of the processor that serves its
/// client. The other queues are left as they are.
pub fn dispatch_operation(operation: Operation, queues: &mut Vec<Vec<Operation>>) -> (r:
    PaymentResult<()>)
    requires
        old(queues)@.len() >= 1,
    ensures
        r is Ok,
        final(queues)@.len() == old(queues)@.len(),
        forall|k: int|
            0 <= k < old(queues)@.len() ==> (#[trigger] final(queues)@[k])@ == if k == shard_of(
                operation.spec_client(),
                old(queues)@.len(),
            ) {
                old(queues)@[k]@.push(operation)
            } else {
                old(queues)@[k]@
            },
{
    let client = operation.client();
    let index = shard_index(client, queues.len());
    queues[index].push(operation);
    Ok(())
}

/// The engine, set up for a number of processors.
pub struct PaymentEngine {
    queues: Vec<Vec<Operation>>,
}

impl PaymentEngine {
    /// The number of processors.
    pub closed spec fn spec_workers(self) -> nat {
        self.queues@.len()
    }

    #[verifier::type_invariant]
    spec fn queues_are_empty(self) -> bool {
        forall|k: int| 0 <= k < self.queues@.len() ==> (#[trigger] self.queues@[k])@.len() == 0
    }

    /// An engine with `worker` processors, each with an empty queue.
    pub fn new(worker: usize) -> (r: PaymentEngine)
        ensures
            r.spec_workers() == worker,
    {
        let mut queues: Vec<Vec<Operation>> = Vec::new();
        let mut k: usize = 0;
        while k < worker
            invariant
                k <= worker,
                queues@.len() == k,
                forall|j: int| 0 <= j < queues@.len() ==> (#[trigger] queues@[j])@.len() == 0,
            decreases worker - k,
        {
            queues.push(Vec::new());
            k = k + 1;
        }
        PaymentEngine { queues }
    }

    /// The number of processors.
    pub fn workers(&self) -> (r: usize)
        ensures
            r == self.spec_workers(),
    {
        self.queues.len()
    }

    /// Routes every operation to the processor of its client, lets each
    /// processor run its queue, and joins the accounts of all of them. Where a
    /// processor stops, no accounts are handed out.
    ///
    /// Where every transaction number of the input belongs to one client, the
    /// accounts are those that a single processor holds after the whole input,
    /// whatever the number of processors.
    pub fn process(self, operations: Vec<Operation>) -> (r: PaymentResult<AccountStore>)
        requires
            self.spec_workers() >= 1,
        ensures
            r is Ok <==> shards_can_run(operations@, self.spec_workers()),
            r matches Ok(accounts) ==> accounts@ == merged_accounts(
                operations@,
                self.spec_workers(),
                self.spec_workers(),
            ),
            r matches Err(e) ==> e == PaymentError::JoiningProcessors,
            numbers_belong_to_one_client(operations@) ==> (r is Ok
                <==> ProcessorView::empty().can_run(operations@)),
            numbers_belong_to_one_client(operations@) ==> (r matches Ok(accounts) ==> accounts@
                == ProcessorView::empty().run(operations@).accounts),
            r matches Ok(accounts) ==> forall|client: ClientId| #[trigger]
                accounts@.contains_key(client) ==> accounts@[client].client == client,
    {
        proof {
            use_type_invariant(&self);
            if numbers_belong_to_one_client(operations@) {
                lemma_engine_is_one_processor(operations@, self.spec_workers());
            }
        }
        let ghost workers = self.spec_workers();
        let mut queues = self.queues;
        let mut i: usize = 0;
        while i < operations.len()
            invariant
                i <= operations@.len(),
                workers >= 1,
                queues@.len() == workers,
                forall|k: int|
                    0 <= k < workers ==> (#[trigger] queues@[k])@ == queue_of(
                        operations@.take(i as int),
                        k as nat,
                        workers,
                    ),
            decreases operations@.len() - i,
        {
            match dispatch_operation(operations[i], &mut queues) {
                Ok(_) => {},
                Err(e) => {
                    return Err(e);
                },
            }
            proof {
                let done = operations@.take(i as int);
                assert(operations@.take(i + 1) =~= done.push(operations@[i as int]));
                assert forall|k: int| 0 <= k < workers implies (#[trigger] queues@[k])@ == queue_of(
                    operations@.take(i + 1),
                    k as nat,
                    workers,
                ) by {
                    let routed = |operation: Operation|
                        shard_of(operation.spec_client(), workers) == k as nat;
                    done.lemma_filter_push(operations@[i as int], routed);
                }
            }
            i = i + 1;
        }
        proof {
            assert(operations@.take(i as int) =~= operations@);
        }
        let mut accounts = AccountStore::new();
        let mut shard: usize = 0;
        let count = queues.len();
        while shard < count
            invariant
                shard <= count,
                count == workers,
                workers == self.spec_workers(),
                queues@.len() == workers - shard,
                forall|k: int|
                    0 <= k < queues@.len() ==> (#[trigger] queues@[k])@ == queue_of(
                        operations@,
                        (shard + k) as nat,
                        workers,
                    ),
                accounts@ == merged_accounts(operations@, workers, shard as nat),
                forall|client: ClientId| #[trigger]
                    accounts@.contains_key(client) ==> accounts@[client].client == client,
                forall|k: nat|
                    k < shard ==> #[trigger] ProcessorView::empty().can_run(
                        queue_of(operations@, k, workers),
                    ),
            decreases count - shard,
        {
            let queue = queues.remove(0);
            match PaymentProcessor::new().run(queue) {
                Ok(store) => {
                    accounts.extend(store);
                },
                Err(_) => {
                    proof {
                        assert(!ProcessorView::empty().can_run(
                            queue_of(operations@, shard as nat, workers),
                        ));
                        if numbers_belong_to_one_client(operations@) {
                            lemma_engine_is_one_processor(operations@, workers);
                        }
                    }
                    return Err(PaymentError::JoiningProcessors);
                },
            }
            shard = shard + 1;
        }
        Ok(accounts)
    }
}

} // verus!
