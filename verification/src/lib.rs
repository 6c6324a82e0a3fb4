//! A batch payment engine: deposits, withdrawals and disputes applied to
//! per-client accounts, with every operation of one client handled in input
//! order by a single processor.

pub use payment::{
    client_hash, dispatch_operation, lemma_client_has_one_processor, lemma_client_order_is_kept,
    lemma_engine_is_one_processor,
    lemma_workers_do_not_matter, merged_accounts, numbers_belong_to_one_client, operations_of,
    queue_of, shard_accounts, shard_index, shard_of, shards_can_run, PaymentEngine, PaymentError,
    PaymentProcessor, PaymentResult, ProcessorView,
};

pub mod account;
pub mod money;
pub mod operation;

mod payment;
