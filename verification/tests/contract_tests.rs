use near_multisig::approval::SubmitOutcome;
use near_multisig::contract::{CallContext, MultisigContract, MultisigError};
use near_multisig::migration::{LegacyState, StoredState};
use near_multisig::validation::{DEFAULT_CALLBACK_GAS, STATE_VERSION, TRANSACTION_STORAGE_DEPOSIT};
use near_multisig::{Action, Transaction};

fn accounts(id: usize) -> String {
    ["alice", "bob", "charlie", "danny", "eugene", "fargo"][id].to_string()
}

fn get_context(predecessor: String) -> CallContext {
    CallContext {
        predecessor,
        current_account: accounts(0),
        attached_deposit: 10_000_000_000_000_000_000_000,
        account_balance: 10u128.pow(26),
        block_timestamp: 0,
    }
}

fn submit(
    contract: &mut MultisigContract,
    context: &CallContext,
    receiver: String,
    actions: Vec<Action>,
    expiration_hours: Option<u64>,
) -> SubmitOutcome {
    contract.submit_transaction(context, receiver, actions, expiration_hours).unwrap()
}

#[test]
fn test_initialization() {
    let owners = vec![accounts(0), accounts(1), accounts(2)];
    let contract = MultisigContract::new(owners.clone(), 2).unwrap();

    assert_eq!(contract.get_num_confirmations(), 2);
    assert_eq!(contract.get_owners().len(), 3);
    assert_eq!(contract.get_transaction_count(), 0);
}

#[test]
fn test_submit_transaction() {
    let context = get_context(accounts(0));

    let owners = vec![accounts(0), accounts(1)];
    let mut contract = MultisigContract::new(owners, 2).unwrap();

    let actions = vec![Action::Transfer { amount: 1000 }];
    let tx_id = submit(&mut contract, &context, accounts(3), actions, None).tx_id;

    assert_eq!(tx_id, 0);
    assert_eq!(contract.get_transaction_count(), 1);

    let tx = contract.get_transaction(tx_id).unwrap();
    assert_eq!(tx.confirmations.len(), 1);
    assert!(!tx.executed);
    assert!(!tx.cancelled);
}

#[test]
fn test_confirm_transaction() {
    let mut context = get_context(accounts(0));

    let owners = vec![accounts(0), accounts(1)];
    let mut contract = MultisigContract::new(owners, 2).unwrap();

    let actions = vec![Action::Transfer { amount: 1000 }];
    let tx_id = submit(&mut contract, &context, accounts(3), actions, None).tx_id;

    context.predecessor = accounts(1);

    contract.confirm_transaction(&context, tx_id).unwrap();
}

#[test]
fn test_non_owner_cannot_submit() {
    let context = get_context(accounts(5));

    let owners = vec![accounts(0), accounts(1)];
    let mut contract = MultisigContract::new(owners, 2).unwrap();

    let actions = vec![Action::Transfer { amount: 1000 }];
    let refused = contract.submit_transaction(&context, accounts(3), actions, None);
    assert_eq!(refused.unwrap_err(), MultisigError::NotOwner);
    assert_eq!(contract.get_transaction_count(), 0);
}

#[test]
fn test_cannot_send_to_self() {
    let mut context = get_context(accounts(0));

    let owners = vec![accounts(0)];
    let mut contract = MultisigContract::new(owners, 1).unwrap();

    context.current_account = accounts(0);

    let actions = vec![Action::Transfer { amount: 1000 }];
    let refused = contract.submit_transaction(&context, accounts(0), actions, None);
    assert_eq!(refused.unwrap_err(), MultisigError::SendToSelf);
}

#[test]
fn test_cancel_transaction() {
    let context = get_context(accounts(0));

    let owners = vec![accounts(0), accounts(1)];
    let mut contract = MultisigContract::new(owners, 2).unwrap();

    let actions = vec![Action::Transfer { amount: 1000 }];
    let tx_id = submit(&mut contract, &context, accounts(3), actions, None).tx_id;

    let _ = contract.cancel_transaction(&context, tx_id).unwrap();

    let tx = contract.get_transaction(tx_id).unwrap();
    assert!(tx.cancelled);
}

#[test]
fn test_revoke_confirmation() {
    let mut context = get_context(accounts(0));

    let owners = vec![accounts(0), accounts(1), accounts(2)];
    let mut contract = MultisigContract::new(owners, 2).unwrap();

    let actions = vec![Action::Transfer { amount: 1000 }];
    let tx_id = submit(&mut contract, &context, accounts(3), actions, None).tx_id;

    context.predecessor = accounts(1);
    contract.confirm_transaction(&context, tx_id).unwrap();

    contract.revoke_confirmation(&context, tx_id).unwrap();

    let tx = contract.get_transaction(tx_id).unwrap();
    assert_eq!(tx.confirmations.len(), 1);
    assert!(!tx.confirmations.contains(&accounts(1)));
}

#[test]
fn test_add_owner() {
    let context = get_context(accounts(0));

    let owners = vec![accounts(0), accounts(1)];
    let mut contract = MultisigContract::new(owners, 2).unwrap();

    contract.add_owner(&context, accounts(2)).unwrap();

    let all_owners = contract.get_owners();
    assert_eq!(all_owners.len(), 3);
    assert!(all_owners.contains(&accounts(2)));
}

#[test]
fn test_remove_owner() {
    let context = get_context(accounts(0));

    let owners = vec![accounts(0), accounts(1), accounts(2)];
    let mut contract = MultisigContract::new(owners, 2).unwrap();

    contract.remove_owner(&context, accounts(2)).unwrap();

    let all_owners = contract.get_owners();
    assert_eq!(all_owners.len(), 2);
    assert!(!all_owners.contains(&accounts(2)));
}

#[test]
fn test_change_threshold() {
    let context = get_context(accounts(0));

    let owners = vec![accounts(0), accounts(1), accounts(2)];
    let mut contract = MultisigContract::new(owners, 2).unwrap();

    contract.change_threshold(&context, 3).unwrap();

    assert_eq!(contract.get_num_confirmations(), 3);
}

#[test]
fn test_transaction_expiration() {
    let context = get_context(accounts(0));

    let owners = vec![accounts(0), accounts(1)];
    let mut contract = MultisigContract::new(owners, 1).unwrap();

    let actions = vec![Action::Transfer { amount: 1000 }];
    let tx_id = submit(&mut contract, &context, accounts(3), actions, Some(1)).tx_id;

    let tx = contract.get_transaction(tx_id).unwrap();
    assert!(tx.expiration.is_some());
    assert!(tx.expiration.unwrap() > context.block_timestamp);
}

#[test]
fn test_cleanup_old_transactions() {
    let context = get_context(accounts(0));

    let owners = vec![accounts(0)];
    let mut contract = MultisigContract::new(owners, 1).unwrap();

    let actions = vec![Action::Transfer { amount: 1000 }];
    let tx_id = submit(&mut contract, &context, accounts(3), actions, None).tx_id;

    if let Some(mut tx) = contract.get_transaction(tx_id) {
        tx.executed = true;
        contract.storage.tx_by_id.insert(tx_id, tx);
    }

    let removed = contract.cleanup_old_transactions(&context, 1).unwrap().removed;
    assert_eq!(removed, 1);
    assert_eq!(contract.get_transaction_count(), 0);
}

#[test]
fn test_storage_structure_consistency() {
    let context = get_context(accounts(0));

    let owners = vec![accounts(0), accounts(1)];
    let mut contract = MultisigContract::new(owners, 2).unwrap();

    let actions = vec![Action::Transfer { amount: 1000 }];
    let tx_id = submit(&mut contract, &context, accounts(3), actions, None).tx_id;

    assert_eq!(contract.storage.tx_ids.len(), 1);
    assert!(contract.storage.tx_by_id.contains_key(&tx_id));
    assert!(contract.storage.tx_index.contains_key(&tx_id));
    assert_eq!(contract.storage.tx_index.get(&tx_id), Some(&0));
}

#[test]
fn test_state_migration() {
    let tx1 = Transaction {
        id: 0,
        receiver_id: accounts(3),
        actions: vec![Action::Transfer { amount: 1000 }],
        confirmations: vec![accounts(0)],
        executed: false,
        cancelled: false,
        storage_depositor: accounts(0),
        expiration: None,
        execution_attempted: false,
    };
    let tx2 = Transaction {
        id: 1,
        receiver_id: accounts(4),
        actions: vec![Action::Transfer { amount: 2000 }],
        confirmations: vec![accounts(1)],
        executed: false,
        cancelled: false,
        storage_depositor: accounts(1),
        expiration: None,
        execution_attempted: false,
    };

    let old_state = LegacyState {
        owners: vec![accounts(0), accounts(1)],
        num_confirmations: 2,
        transactions: vec![tx1, tx2],
        pending_callbacks: 0,
        callback_gas: DEFAULT_CALLBACK_GAS,
        storage_deposit: TRANSACTION_STORAGE_DEPOSIT,
        next_tx_id: 2,
        reserved_balance: 3000,
    };

    let new_contract = MultisigContract::migrate(StoredState::Legacy(old_state)).unwrap();

    assert_eq!(new_contract.state_version, STATE_VERSION);
    assert_eq!(new_contract.owners.len(), 2);
    assert_eq!(new_contract.num_confirmations, 2);
    assert_eq!(new_contract.storage.tx_ids.len(), 2);
    assert_eq!(new_contract.next_tx_id, 2);
    assert_eq!(new_contract.reserved_balance, 3000);

    assert!(new_contract.storage.tx_by_id.contains_key(&0));
    assert!(new_contract.storage.tx_by_id.contains_key(&1));
    assert_eq!(new_contract.storage.tx_index.get(&0), Some(&0));
    assert_eq!(new_contract.storage.tx_index.get(&1), Some(&1));

    let migrated_tx1 = new_contract.get_transaction(0).unwrap();
    assert_eq!(migrated_tx1.id, 0);
    assert_eq!(migrated_tx1.receiver_id, accounts(3));
    assert_eq!(migrated_tx1.confirmations.len(), 1);

    let migrated_tx2 = new_contract.get_transaction(1).unwrap();
    assert_eq!(migrated_tx2.id, 1);
    assert_eq!(migrated_tx2.receiver_id, accounts(4));
    assert_eq!(migrated_tx2.confirmations.len(), 1);
}

#[test]
fn test_migration_preserves_pending_transactions() {
    let pending_tx = Transaction {
        id: 0,
        receiver_id: accounts(1),
        actions: vec![Action::Transfer { amount: 5000 }],
        confirmations: vec![accounts(0)],
        executed: false,
        cancelled: false,
        storage_depositor: accounts(0),
        expiration: Some(3600_000_000_000),
        execution_attempted: false,
    };
    let executed_tx = Transaction {
        id: 1,
        receiver_id: accounts(2),
        actions: vec![Action::Transfer { amount: 1000 }],
        confirmations: vec![accounts(0)],
        executed: true,
        cancelled: false,
        storage_depositor: accounts(0),
        expiration: None,
        execution_attempted: false,
    };

    let old_state = LegacyState {
        owners: vec![accounts(0)],
        num_confirmations: 1,
        transactions: vec![pending_tx, executed_tx],
        pending_callbacks: 0,
        callback_gas: DEFAULT_CALLBACK_GAS,
        storage_deposit: TRANSACTION_STORAGE_DEPOSIT,
        next_tx_id: 2,
        reserved_balance: 5000,
    };

    let new_contract = MultisigContract::migrate(StoredState::Legacy(old_state)).unwrap();

    assert_eq!(new_contract.get_transaction_count(), 2);

    let pending = new_contract.get_transaction(0).unwrap();
    assert!(!pending.executed);
    assert!(!pending.cancelled);
    assert!(pending.expiration.is_some());

    let executed = new_contract.get_transaction(1).unwrap();
    assert!(executed.executed);
    assert!(!executed.cancelled);
}

#[test]
fn test_migration_with_empty_transactions() {
    let old_state = LegacyState {
        owners: vec![accounts(0)],
        num_confirmations: 1,
        transactions: Vec::new(),
        pending_callbacks: 0,
        callback_gas: DEFAULT_CALLBACK_GAS,
        storage_deposit: TRANSACTION_STORAGE_DEPOSIT,
        next_tx_id: 0,
        reserved_balance: 0,
    };

    let new_contract = MultisigContract::migrate(StoredState::Legacy(old_state)).unwrap();

    assert_eq!(new_contract.get_transaction_count(), 0);
    assert_eq!(new_contract.state_version, STATE_VERSION);
}
