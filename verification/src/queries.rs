//! Read-only queries on the engine.

use vstd::prelude::*;
use crate::cleanup::is_pending_in;
use crate::contract::{contains_id, MultisigContract, MultisigError};
use crate::storage::TransactionStorage;
use crate::types::{copy_ids, Transaction, TransactionView};

verus! {

/// The identifiers that have a record.
pub open spec fn is_stored_in(records: Map<u64, TransactionView>) -> spec_fn(u64) -> bool {
    |id: u64| records.contains_key(id)
}

/// The record of an identifier.
pub open spec fn record_in(records: Map<u64, TransactionView>) -> spec_fn(u64) -> TransactionView {
    |id: u64| records[id]
}

/// The positions of a page: from `from_index`, at most `limit` of them,
/// within a sequence of length `len`.
pub open spec fn page_bounds(from_index: u64, limit: u64, len: nat) -> (int, int) {
    let start = if from_index < len {
        from_index as int
    } else {
        len as int
    };
    let end = if start + limit < len {
        start + limit
    } else {
        len as int
    };
    (start, end)
}

/// The identifiers of a page.
pub open spec fn page_ids(order: Seq<u64>, from_index: u64, limit: u64) -> Seq<u64> {
    let (start, end) = page_bounds(from_index, limit, order.len());
    order.subrange(start, end)
}

impl MultisigContract {
    /// The record of `tx_id`, if there is one.
    pub fn get_tx(&self, tx_id: u64) -> (r: Option<&Transaction>)
        ensures
            r is Some <==> self.records().contains_key(tx_id),
            r is Some ==> r.unwrap()@ == self.records()[tx_id],
    {
        self.storage.get_transaction(tx_id)
    }

    /// The record of `tx_id`, which must exist.
    pub fn get_tx_or_panic(&self, tx_id: u64) -> (r: &Transaction)
        requires
            self.records().contains_key(tx_id),
        ensures
            r@ == self.records()[tx_id],
    {
        self.storage.get_transaction_or_panic(tx_id)
    }

    /// A copy of the record of `tx_id`, which must exist.
    pub fn get_tx_mut(&self, tx_id: u64) -> (r: Transaction)
        requires
            self.records().contains_key(tx_id),
        ensures
            r@ == self.records()[tx_id],
    {
        self.storage.get_transaction_or_panic(tx_id).clone()
    }

    /// Checks that `who` is an approver.
    pub fn require_owner(&self, who: &String) -> (r: Result<(), MultisigError>)
        ensures
            r is Ok <==> self.has_owner(who@),
            r is Err ==> r == Err::<(), MultisigError>(MultisigError::NotOwner),
    {
        if contains_id(&self.owners, who) {
            Ok(())
        } else {
            Err(MultisigError::NotOwner)
        }
    }

    /// Checks that a record is neither executed nor cancelled.
    pub fn require_tx_pending(tx: &Transaction) -> (r: Result<(), MultisigError>)
        ensures
            r is Ok <==> tx@.is_pending(),
            tx.executed ==> r == Err::<(), MultisigError>(MultisigError::AlreadyExecuted),
            !tx.executed && tx.cancelled ==> r == Err::<(), MultisigError>(
                MultisigError::TransactionCancelled,
            ),
    {
        if tx.executed {
            Err(MultisigError::AlreadyExecuted)
        } else if tx.cancelled {
            Err(MultisigError::TransactionCancelled)
        } else {
            Ok(())
        }
    }

    /// The approvers, in the order of the registry.
    pub fn get_owners(&self) -> (r: Vec<String>)
        ensures
            r.deep_view() == self.owner_ids(),
    {
        copy_ids(&self.owners)
    }

    /// The threshold.
    pub fn get_num_confirmations(&self) -> (r: u32)
        ensures
            r == self.num_confirmations,
    {
        self.num_confirmations
    }

    /// A copy of the record of `tx_id`, if there is one.
    pub fn get_transaction(&self, tx_id: u64) -> (r: Option<Transaction>)
        ensures
            r is Some <==> self.records().contains_key(tx_id),
            r is Some ==> r.unwrap()@ == self.records()[tx_id],
    {
        match self.storage.get_transaction(tx_id) {
            Some(tx) => Some(tx.clone()),
            None => None,
        }
    }

    /// The pending records of one page of the sequence, in order.
    pub fn get_pending_transactions_paginated(&self, from_index: u64, limit: u64) -> (r: Vec<
        Transaction,
    >)
        ensures
            r.deep_view() == page_ids(self.storage.order(), from_index, limit).filter(
                is_pending_in(self.records()),
            ).map_values(record_in(self.records())),
    {
        self.collect_page(from_index, limit, true)
    }

    /// The records of one page of the sequence, in order.
    pub fn get_transactions(&self, from_index: u64, limit: u64) -> (r: Vec<Transaction>)
        ensures
            r.deep_view() == page_ids(self.storage.order(), from_index, limit).filter(
                is_stored_in(self.records()),
            ).map_values(record_in(self.records())),
    {
        self.collect_page(from_index, limit, false)
    }

    /// The records of one page: the pending ones, or all of them.
    pub fn collect_page(&self, from_index: u64, limit: u64, pending_only: bool) -> (r: Vec<
        Transaction,
    >)
        ensures
            r.deep_view() == page_ids(self.storage.order(), from_index, limit).filter(
                if pending_only {
                    is_pending_in(self.records())
                } else {
                    is_stored_in(self.records())
                },
            ).map_values(record_in(self.records())),
    {
        let ghost order = self.storage.order();
        let ghost wanted = if pending_only {
            is_pending_in(self.records())
        } else {
            is_stored_in(self.records())
        };
        let ghost record = record_in(self.records());
        let len = self.storage.tx_ids.len();
        let start: usize = if from_index < len as u64 {
            from_index as usize
        } else {
            len
        };
        let end: usize = if limit < (len - start) as u64 {
            start + limit as usize
        } else {
            len
        };
        assert((start as int, end as int) == page_bounds(from_index, limit, order.len()));
        let mut out: Vec<Transaction> = Vec::new();
        let mut i: usize = start;
        proof {
            reveal(Seq::filter);
            assert(order.subrange(start as int, start as int).filter(wanted).map_values(record)
                =~= Seq::<TransactionView>::empty());
            assert(out.deep_view() =~= Seq::<TransactionView>::empty());
        }
        while i < end
            invariant
                start <= i <= end <= len,
                len == order.len(),
                order == self.storage.tx_ids@,
                wanted == if pending_only {
                    is_pending_in(self.records())
                } else {
                    is_stored_in(self.records())
                },
                record == record_in(self.records()),
                out.deep_view() == order.subrange(start as int, i as int).filter(wanted).map_values(
                    record,
                ),
            decreases end - i,
        {
            let id = self.storage.tx_ids[i];
            let ghost seen = order.subrange(start as int, i as int);
            let ghost before = out.deep_view();
            proof {
                assert(order.subrange(start as int, i + 1) =~= seen.push(id));
                seen.lemma_filter_push(id, wanted);
                assert(seen.filter(wanted).push(id).map_values(record) =~= seen.filter(
                    wanted,
                ).map_values(record).push(record(id)));
            }
            match self.storage.get_transaction(id) {
                Some(tx) => {
                    if !pending_only || (!tx.executed && !tx.cancelled) {
                        out.push(tx.clone());
                        assert(out.deep_view() =~= before.push(record(id)));
                    }
                },
                None => {},
            }
            i += 1;
        }
        out
    }

    /// The number of identifiers in the sequence.
    pub fn get_transaction_count(&self) -> (r: u64)
        ensures
            r == self.storage.order().len(),
    {
        self.storage.tx_ids.len() as u64
    }

    /// Whether `account_id` is an approver.
    pub fn is_owner(&self, account_id: String) -> (r: bool)
        ensures
            r == self.has_owner(account_id@),
    {
        contains_id(&self.owners, &account_id)
    }

    /// Whether `account_id` has confirmed the proposal `tx_id`. Of an
    /// unknown proposal nobody has.
    pub fn has_confirmed(&self, tx_id: u64, account_id: String) -> (r: bool)
        ensures
            r == (self.records().contains_key(tx_id) && self.records()[tx_id].confirmations.contains(
                account_id@,
            )),
    {
        match self.storage.get_transaction(tx_id) {
            Some(tx) => contains_id(&tx.confirmations, &account_id),
            None => false,
        }
    }
}

} // verus!
