//! The deposits and withdrawals that one processor has accepted, by number.

use crate::operation::{Transaction, TransactionError, TransactionId, TransactionResult};
use std::collections::hash_map::{Entry, VacantEntry};
use std::collections::HashMap;
use vstd::prelude::*;
use vstd::std_specs::hash::VacantEntrySpecFns;

verus! {

broadcast use vstd::std_specs::hash::group_hash_axioms;

/// A recorded transaction, and whether it is under dispute.
#[derive(Clone, Copy, Debug, PartialEq, Eq)]
pub struct TransactionStoreValue {
    pub transaction: Transaction,
    pub disputed: bool,
}

/// The recorded transactions by number. No number is recorded twice.
pub struct TransactionStore {
    records: HashMap<TransactionId, TransactionStoreValue>,
}

impl View for TransactionStore {
    type V = Map<TransactionId, TransactionStoreValue>;

    closed spec fn view(&self) -> Map<TransactionId, TransactionStoreValue> {
        self.records@
    }
}

/// A free place in the store, kept for one transaction: the place, and the
/// record to write there. `finish` records the transaction; a reservation that
/// is dropped records nothing.
#[derive(Debug)]
pub struct LockForInsert<'a>(
    pub VacantEntry<'a, TransactionId, TransactionStoreValue>,
    pub TransactionStoreValue,
);

impl<'a> LockForInsert<'a> {
    /// Records the transaction.
    pub fn finish(self)
        ensures
            self.0.final_value() == Some(self.1),
    {
        let LockForInsert(place, record) = self;
        place.insert(record);
    }
}

impl TransactionStore {
    /// A store without records.
    pub fn new() -> (r: TransactionStore)
        ensures
            r@ == Map::<TransactionId, TransactionStoreValue>::empty(),
    {
        TransactionStore { records: HashMap::new() }
    }

    /// The record of transaction `id` as it stands, if there is one.
    pub fn get(&self, id: TransactionId) -> (r: Option<&TransactionStoreValue>)
        ensures
            match r {
                Some(v) => self@.contains_key(id) && self@[id] == *v,
                None => !self@.contains_key(id),
            },
    {
        self.records.get(&id)
    }

    /// The record of transaction `id`, to read and to change.
    pub fn get_mut(&mut self, id: TransactionId) -> (r: TransactionResult<
        &mut TransactionStoreValue,
    >)
        ensures
            match r {
                Ok(v) => old(self)@.contains_key(id) && *v == old(self)@[id] && final(self)@ == old(
                    self,
                )@.insert(id, *final(v)),
                Err(e) => !old(self)@.contains_key(id) && e == (TransactionError::NotFound { id })
                    && final(self)@ == old(self)@,
            },
    {
        match self.records.entry(id) {
            Entry::Occupied(found) => Ok(found.into_mut()),
            Entry::Vacant(_) => Err(TransactionError::NotFound { id }),
        }
    }

    /// Reserves the place of `tx` in the store, unless a transaction with its
    /// number is recorded already. Nothing is recorded before the reservation
    /// is finished.
    pub fn lock_for_insert(&mut self, tx: Transaction) -> (r: TransactionResult<LockForInsert<'_>>)
        ensures
            match r {
                Ok(lock) => !old(self)@.contains_key(tx.tx) && lock.1 == (TransactionStoreValue {
                    transaction: tx,
                    disputed: false,
                }) && final(self)@ == match lock.0.final_value() {
                    Some(v) => old(self)@.insert(tx.tx, v),
                    None => old(self)@,
                },
                Err(e) => old(self)@.contains_key(tx.tx) && e == (TransactionError::Conflict {
                    id: tx.tx,
                }) && final(self)@ == old(self)@,
            },
    {
        match self.records.entry(tx.tx) {
            Entry::Occupied(_) => Err(TransactionError::Conflict { id: tx.tx }),
            Entry::Vacant(place) => Ok(
                LockForInsert(place, TransactionStoreValue { transaction: tx, disputed: false }),
            ),
        }
    }

    /// Records `tx`, unless a transaction with its number is recorded already.
    pub fn insert(&mut self, tx: Transaction) -> (r: TransactionResult<()>)
        ensures
            match r {
                Ok(_) => !old(self)@.contains_key(tx.tx) && final(self)@ == old(self)@.insert(
                    tx.tx,
                    TransactionStoreValue { transaction: tx, disputed: false },
                ),
                Err(e) => old(self)@.contains_key(tx.tx) && e == (TransactionError::Conflict {
                    id: tx.tx,
                }) && final(self)@ == old(self)@,
            },
    {
        match self.lock_for_insert(tx) {
            Ok(lock) => {
                lock.finish();
                Ok(())
            },
            Err(e) => Err(e),
        }
    }
}

impl Default for TransactionStore {
    /// A store without records.
    fn default() -> (r: TransactionStore)
        ensures
            r@ == Map::<TransactionId, TransactionStoreValue>::empty(),
    {
        TransactionStore::new()
    }
}

} // verus!
