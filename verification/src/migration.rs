//! The one-time move from the older layout, which kept the records in one
//! list, to the store of three structures.

use vstd::prelude::*;
use crate::contract::{sound_record, MultisigContract, MultisigError};
use crate::storage::{MultisigStorage, TransactionStorage};
use crate::types::{Transaction, TransactionView};
use crate::validation::{MAX_OWNERS, STATE_VERSION};

verus! {

/// The engine's state in the older layout.
pub struct LegacyState {
    pub owners: Vec<String>,
    pub num_confirmations: u32,
    /// The records, in order of submission.
    pub transactions: Vec<Transaction>,
    pub pending_callbacks: u32,
    pub callback_gas: u64,
    pub storage_deposit: u128,
    pub next_tx_id: u64,
    pub reserved_balance: u128,
}

/// What the host holds when a migration is asked for.
pub enum StoredState {
    /// A state in the older layout.
    Legacy(LegacyState),
    /// A state that carries a layout version, as every state does that a
    /// migration has made.
    Versioned { state_version: u32 },
}

/// The identifiers of a list of records, in order.
pub open spec fn ids_of(records: Seq<TransactionView>) -> Seq<u64> {
    records.map_values(|t: TransactionView| t.id)
}

impl LegacyState {
    /// The records, as plain data.
    pub open spec fn record_list(&self) -> Seq<TransactionView> {
        self.transactions.deep_view()
    }

    /// What makes an older state valid, but for the identifiers being
    /// distinct: the approvers are distinct and at most [`MAX_OWNERS`], the
    /// threshold lies between one and their number, every identifier is
    /// below the counter, and every record is sound.
    pub open spec fn wf(&self) -> bool {
        &&& self.owners.deep_view().no_duplicates()
        &&& 1 <= self.num_confirmations <= self.owners.len() <= MAX_OWNERS
        &&& forall|i: int|
            0 <= i < self.record_list().len() ==> (#[trigger] self.record_list()[i]).id
                < self.next_tx_id && sound_record(self.record_list()[i])
    }

    /// Why the state cannot be migrated, if it cannot.
    pub open spec fn migration_error(&self) -> Option<MultisigError> {
        if self.transactions.len() > u32::MAX {
            Some(MultisigError::TooManyTransactions)
        } else if !ids_of(self.record_list()).no_duplicates() {
            Some(MultisigError::DuplicateTransactionId)
        } else {
            None
        }
    }
}

impl StoredState {
    /// Why the stored state cannot be migrated, if it cannot: it is in the
    /// current layout already, it carries a version that is not known, or
    /// its records cannot be stored.
    pub open spec fn migration_error(&self) -> Option<MultisigError> {
        match *self {
            StoredState::Versioned { state_version } => if state_version == STATE_VERSION {
                Some(MultisigError::AlreadyMigrated)
            } else {
                Some(MultisigError::UnknownStateVersion)
            },
            StoredState::Legacy(old_state) => old_state.migration_error(),
        }
    }
}

impl MultisigContract {
    /// Migrates what the host holds to the current layout, once. A state
    /// that carries the current layout version has been migrated and is
    /// refused, so that a second run changes nothing. A state in the older
    /// layout is rebuilt as [`MultisigContract::migrate_legacy`] says.
    pub fn migrate(stored: StoredState) -> (r: Result<Self, MultisigError>)
        ensures
            match r {
                Err(e) => stored.migration_error() == Some(e),
                Ok(c) => {
                    &&& stored matches StoredState::Legacy(old_state)
                    &&& old_state.migration_error() is None
                    &&& c.migrated_from(&old_state)
                },
            },
    {
        match stored {
            StoredState::Versioned { state_version } => {
                if state_version == STATE_VERSION {
                    Err(MultisigError::AlreadyMigrated)
                } else {
                    Err(MultisigError::UnknownStateVersion)
                }
            },
            StoredState::Legacy(old_state) => MultisigContract::migrate_legacy(old_state),
        }
    }

    /// `self` is what migration makes of `old_state`: each record is stored
    /// under its identifier, at the position it had in the list; registry,
    /// settings, counters and ledger are as they were; the layout version is
    /// the current one.
    pub open spec fn migrated_from(&self, old_state: &LegacyState) -> bool {
        &&& self.state_version == STATE_VERSION
        &&& self.owner_ids() == old_state.owners.deep_view()
        &&& self.num_confirmations == old_state.num_confirmations
        &&& self.pending_callbacks == old_state.pending_callbacks
        &&& self.callback_gas == old_state.callback_gas
        &&& self.storage_deposit == old_state.storage_deposit
        &&& self.next_tx_id == old_state.next_tx_id
        &&& self.reserved_balance == old_state.reserved_balance
        &&& self.storage.order() == ids_of(old_state.record_list())
        &&& self.records().dom() =~= ids_of(old_state.record_list()).to_set()
        &&& forall|i: int|
            0 <= i < old_state.record_list().len() ==> self.records()[(
            #[trigger] old_state.record_list()[i]).id] == old_state.record_list()[i]
        &&& self.storage.wf()
        &&& old_state.wf() ==> self.wf()
    }

    /// Builds the current state from an older one: each record is stored
    /// under its identifier, at the position it had in the list, and the
    /// registry, the settings, the counters and the ledger are taken over
    /// as they are. The result carries the current layout version. A list
    /// in which two records carry one identifier is refused.
    pub fn migrate_legacy(old_state: LegacyState) -> (r: Result<Self, MultisigError>)
        ensures
            match r {
                Err(e) => old_state.migration_error() == Some(e),
                Ok(c) => old_state.migration_error() is None && c.migrated_from(&old_state),
            },
    {
        let ghost list = old_state.record_list();
        let ghost ids = ids_of(list);
        if old_state.transactions.len() > u32::MAX as usize {
            return Err(MultisigError::TooManyTransactions);
        }
        let mut storage = MultisigStorage::new();
        let mut i: usize = 0;
        proof {
            assert(ids.take(0) =~= Seq::<u64>::empty());
        }
        while i < old_state.transactions.len()
            invariant
                i <= old_state.transactions.len() <= u32::MAX,
                list == old_state.transactions.deep_view(),
                ids == ids_of(list),
                storage.wf(),
                storage.order() == ids.take(i as int),
                forall|k: int| 0 <= k < i ==> storage.records()[ids[k]] == #[trigger] list[k],
            decreases old_state.transactions.len() - i,
        {
            let tx = &old_state.transactions[i];
            let ghost before = storage;
            proof {
                assert(tx@ == list[i as int]);
                assert(ids[i as int] == tx.id);
                assert(ids.take(i + 1) =~= ids.take(i as int).push(tx.id));
            }
            if storage.get_transaction_index(tx.id).is_some() {
                proof {
                    let seen = ids.take(i as int);
                    assert(seen.to_set().contains(tx.id));
                    let k = choose|k: int| 0 <= k < seen.len() && seen[k] == tx.id;
                    assert(ids[k] == ids[i as int]);
                }
                return Err(MultisigError::DuplicateTransactionId);
            }
            storage.upsert_transaction(tx.clone());
            proof {
                assert forall|k: int| 0 <= k < i + 1 implies storage.records()[ids[k]]
                    == #[trigger] list[k] by {
                    if k < i {
                        assert(before.records()[ids[k]] == list[k]);
                        assert(ids.take(i as int)[k] == ids[k]);
                        assert(before.order().to_set().contains(ids[k]));
                    }
                }
            }
            i += 1;
        }
        proof {
            assert(ids.take(ids.len() as int) =~= ids);
        }
        let c = MultisigContract {
            state_version: STATE_VERSION,
            owners: old_state.owners,
            num_confirmations: old_state.num_confirmations,
            storage,
            pending_callbacks: old_state.pending_callbacks,
            callback_gas: old_state.callback_gas,
            storage_deposit: old_state.storage_deposit,
            next_tx_id: old_state.next_tx_id,
            reserved_balance: old_state.reserved_balance,
        };
        proof {
            if old_state.wf() {
                assert forall|id: u64| #[trigger] c.records().contains_key(id) implies id
                    < c.next_tx_id && c.records()[id].id == id && sound_record(
                    c.records()[id],
                ) by {
                    assert(ids.to_set().contains(id));
                    let k = choose|k: int| 0 <= k < ids.len() && ids[k] == id;
                    assert(c.records()[ids[k]] == list[k]);
                }
            }
        }
        Ok(c)
    }
}

} // verus!
