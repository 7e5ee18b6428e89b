use near_multisig::contract::{CallContext, MultisigContract, MultisigError};
use near_multisig::migration::{LegacyState, StoredState};
use near_multisig::storage::{MultisigStorage, TransactionStorage};
use near_multisig::validation::{
    calculate_transaction_deposit, validate_actions, ValidationError,
};
use near_multisig::{Action, MultisigEvent, Transaction};

fn id(name: &str) -> String {
    name.to_string()
}

fn ctx(name: &str) -> CallContext {
    CallContext {
        predecessor: id(name),
        current_account: id("multisig"),
        attached_deposit: 10_000_000_000_000_000_000_000,
        account_balance: 10u128.pow(26),
        block_timestamp: 0,
    }
}

fn call(gas: u64, deposit: u128) -> Action {
    Action::FunctionCall { method_name: id("run"), args: vec![0; 4], gas, deposit }
}

fn record(tx_id: u64, actions: Vec<Action>) -> Transaction {
    Transaction {
        id: tx_id,
        receiver_id: id("x"),
        actions,
        confirmations: vec![id("alice")],
        executed: false,
        cancelled: false,
        storage_depositor: id("alice"),
        expiration: None,
        execution_attempted: false,
    }
}

#[test]
fn creation_is_refused_for_a_bad_registry() {
    assert_eq!(MultisigContract::new(Vec::new(), 1).err(), Some(MultisigError::NoOwners));
    let many: Vec<String> = (0..51).map(|n| format!("owner{}", n)).collect();
    assert_eq!(MultisigContract::new(many, 1).err(), Some(MultisigError::TooManyOwners));
    let fifty: Vec<String> = (0..50).map(|n| format!("owner{}", n)).collect();
    assert!(MultisigContract::new(fifty, 50).is_ok());
    assert_eq!(
        MultisigContract::new(vec![id("a"), id("b")], 0).err(),
        Some(MultisigError::InvalidThreshold)
    );
    assert_eq!(
        MultisigContract::new(vec![id("a"), id("b")], 3).err(),
        Some(MultisigError::InvalidThreshold)
    );
    assert_eq!(
        MultisigContract::new(vec![id("a"), id("b"), id("a")], 2).err(),
        Some(MultisigError::DuplicateOwner)
    );
}

#[test]
fn new_engine_has_the_default_settings() {
    let c = MultisigContract::new(vec![id("a")], 1).unwrap();
    assert_eq!(c.state_version, 2);
    assert_eq!(c.callback_gas, 20_000_000_000_000);
    assert_eq!(c.get_storage_deposit(), 10_000_000_000_000_000_000_000);
    assert_eq!(c.pending_callbacks, 0);
    assert_eq!(c.next_tx_id, 0);
    assert_eq!(c.reserved_balance, 0);
    assert!(c.is_owner(id("a")));
    assert!(!c.is_owner(id("b")));
}

#[test]
fn owners_are_added_and_removed_within_the_rules() {
    let mut c = MultisigContract::new(vec![id("a"), id("b"), id("c")], 2).unwrap();
    assert_eq!(c.add_owner(&ctx("z"), id("d")).unwrap_err(), MultisigError::NotOwner);
    assert_eq!(c.add_owner(&ctx("a"), id("b")).unwrap_err(), MultisigError::AlreadyOwner);
    assert_eq!(c.remove_owner(&ctx("a"), id("z")).unwrap_err(), MultisigError::NotCurrentlyOwner);
    assert_eq!(c.remove_owner(&ctx("a"), id("a")).unwrap_err(), MultisigError::CannotRemoveSelf);
    c.remove_owner(&ctx("b"), id("a")).unwrap();
    assert_eq!(c.get_owners(), vec![id("c"), id("b")]);
    assert_eq!(
        c.remove_owner(&ctx("b"), id("c")).unwrap_err(),
        MultisigError::OwnersBelowThreshold
    );
    c.add_owner(&ctx("b"), id("d")).unwrap();
    assert_eq!(c.get_owners(), vec![id("c"), id("b"), id("d")]);
    assert_eq!(c.get_num_confirmations(), 2);
}

#[test]
fn registry_holds_at_most_fifty() {
    let fifty: Vec<String> = (0..50).map(|n| format!("owner{}", n)).collect();
    let mut c = MultisigContract::new(fifty, 1).unwrap();
    assert_eq!(
        c.add_owner(&ctx("owner0"), id("late")).unwrap_err(),
        MultisigError::OwnerLimitReached
    );
    assert_eq!(c.get_owners().len(), 50);
}

#[test]
fn threshold_stays_between_one_and_the_owners() {
    let mut c = MultisigContract::new(vec![id("a"), id("b")], 1).unwrap();
    assert_eq!(c.change_threshold(&ctx("z"), 1).unwrap_err(), MultisigError::NotOwner);
    assert_eq!(c.change_threshold(&ctx("a"), 0).unwrap_err(), MultisigError::ThresholdZero);
    assert_eq!(
        c.change_threshold(&ctx("a"), 3).unwrap_err(),
        MultisigError::ThresholdExceedsOwners
    );
    c.change_threshold(&ctx("a"), 2).unwrap();
    assert_eq!(c.get_num_confirmations(), 2);
}

#[test]
fn settings_stay_within_their_bounds() {
    let mut c = MultisigContract::new(vec![id("a")], 1).unwrap();
    assert_eq!(
        c.set_callback_gas(&ctx("a"), 4_999_999_999_999).unwrap_err(),
        MultisigError::CallbackGasTooLow
    );
    assert_eq!(
        c.set_callback_gas(&ctx("a"), 100_000_000_000_001).unwrap_err(),
        MultisigError::CallbackGasTooHigh
    );
    assert_eq!(c.set_callback_gas(&ctx("z"), 5_000_000_000_000).unwrap_err(), MultisigError::NotOwner);
    let events = c.set_callback_gas(&ctx("a"), 5_000_000_000_000).unwrap();
    assert!(matches!(
        &events[0],
        MultisigEvent::CallbackGasChanged {
            old_gas: 20_000_000_000_000,
            new_gas: 5_000_000_000_000,
            changer
        } if changer == "a"
    ));
    assert_eq!(c.callback_gas, 5_000_000_000_000);

    assert_eq!(
        c.set_storage_deposit(&ctx("a"), 999_999_999_999_999_999_999).unwrap_err(),
        MultisigError::StorageDepositTooLow
    );
    assert_eq!(
        c.set_storage_deposit(&ctx("a"), 1_000_000_000_000_000_000_000_001).unwrap_err(),
        MultisigError::StorageDepositTooHigh
    );
    let events = c.set_storage_deposit(&ctx("a"), 1_000_000_000_000_000_000_000_000).unwrap();
    assert!(matches!(
        &events[0],
        MultisigEvent::StorageDepositChanged {
            old_deposit: 10_000_000_000_000_000_000_000,
            new_deposit: 1_000_000_000_000_000_000_000_000,
            changer
        } if changer == "a"
    ));
    assert_eq!(c.get_storage_deposit(), 1_000_000_000_000_000_000_000_000);
}

#[test]
fn validation_names_the_first_broken_rule() {
    assert_eq!(validate_actions(&Vec::new()), Err(ValidationError::EmptyActions));
    let eleven: Vec<Action> = (0..11).map(|_| Action::Transfer { amount: 1 }).collect();
    assert_eq!(validate_actions(&eleven), Err(ValidationError::TooManyActions));
    let ten: Vec<Action> = (0..10).map(|_| Action::Transfer { amount: 1 }).collect();
    assert_eq!(validate_actions(&ten), Ok(10));
    assert_eq!(
        validate_actions(&vec![Action::Transfer { amount: 5 }, Action::Transfer { amount: 0 }]),
        Err(ValidationError::ZeroTransferAmount)
    );
    let big = Action::FunctionCall {
        method_name: String::new(),
        args: vec![0; 32769],
        gas: 0,
        deposit: 0,
    };
    assert_eq!(validate_actions(&vec![big]), Err(ValidationError::ArgsTooLarge));
    let long = Action::FunctionCall {
        method_name: "m".repeat(257),
        args: vec![0; 32768],
        gas: 0,
        deposit: 0,
    };
    assert_eq!(validate_actions(&vec![long]), Err(ValidationError::MethodNameTooLong));
    let unnamed =
        Action::FunctionCall { method_name: String::new(), args: Vec::new(), gas: 0, deposit: 0 };
    assert_eq!(validate_actions(&vec![unnamed]), Err(ValidationError::EmptyMethodName));
    assert_eq!(validate_actions(&vec![call(0, 0)]), Err(ValidationError::ZeroGas));
    assert_eq!(
        validate_actions(&vec![call(100_000_000_000_001, 0)]),
        Err(ValidationError::GasPerActionExceeded)
    );
    assert_eq!(
        validate_actions(&vec![
            call(100_000_000_000_000, 1),
            call(100_000_000_000_000, 2),
            call(50_000_000_000_001, 3),
        ]),
        Err(ValidationError::TotalGasExceeded)
    );
    assert_eq!(
        validate_actions(&vec![
            call(100_000_000_000_000, 1),
            call(100_000_000_000_000, 2),
            call(50_000_000_000_000, 3),
            Action::Transfer { amount: 4 },
        ]),
        Ok(10)
    );
    let exact = Action::FunctionCall {
        method_name: "m".repeat(256),
        args: vec![0; 32768],
        gas: 1,
        deposit: 0,
    };
    assert_eq!(validate_actions(&vec![exact]), Ok(0));
}

#[test]
fn values_are_held_at_the_largest_amount() {
    let actions = vec![Action::Transfer { amount: u128::MAX }, call(1, 5)];
    assert_eq!(validate_actions(&actions), Ok(u128::MAX));
    assert_eq!(calculate_transaction_deposit(&record(0, actions)), u128::MAX);
    assert_eq!(calculate_transaction_deposit(&record(0, Vec::new())), 0);
    assert_eq!(
        calculate_transaction_deposit(&record(0, vec![Action::Transfer { amount: 3 }, call(1, 4)])),
        7
    );
}

#[test]
fn store_appends_new_identifiers_and_rewrites_known_ones() {
    let mut store = MultisigStorage::new();
    assert_eq!(store.transaction_count(), 0);
    store.upsert_transaction(record(7, Vec::new()));
    store.upsert_transaction(record(3, Vec::new()));
    assert_eq!(store.tx_ids, vec![7, 3]);
    assert_eq!(store.get_transaction_index(7), Some(0));
    assert_eq!(store.get_transaction_index(3), Some(1));
    assert_eq!(store.get_transaction_index(4), None);

    let mut changed = record(7, Vec::new());
    changed.executed = true;
    store.upsert_transaction(changed);
    assert_eq!(store.tx_ids, vec![7, 3]);
    assert_eq!(store.transaction_count(), 2);
    assert!(store.get_transaction(7).unwrap().executed);
    assert!(store.get_transaction_or_panic(7).executed);
    assert!(store.get_transaction(9).is_none());

    store.remove_transaction(7);
    assert!(store.get_transaction(7).is_none());
    assert_eq!(store.tx_ids, vec![7, 3]);
    store.rebuild_storage(vec![3]);
    assert_eq!(store.tx_ids, vec![3]);
    assert_eq!(store.get_transaction_index(3), Some(0));
    assert_eq!(store.get_transaction_index(7), None);
    assert_eq!(store.transaction_count(), 1);
}

#[test]
fn pages_follow_the_sequence() {
    let mut c = MultisigContract::new(vec![id("alice")], 1).unwrap();
    for _ in 0..5 {
        c.submit_transaction(&ctx("alice"), id("x"), vec![Action::Transfer { amount: 1 }], None)
            .unwrap();
    }
    c.cancel_transaction(&ctx("alice"), 1).unwrap();
    c.execute_transaction(&ctx("alice"), 3).unwrap();

    let ids = |page: Vec<Transaction>| page.iter().map(|t| t.id).collect::<Vec<u64>>();
    assert_eq!(ids(c.get_transactions(0, 10)), vec![0, 1, 2, 3, 4]);
    assert_eq!(ids(c.get_transactions(1, 2)), vec![1, 2]);
    assert_eq!(ids(c.get_transactions(4, u64::MAX)), vec![4]);
    assert_eq!(ids(c.get_transactions(9, 3)), Vec::<u64>::new());
    assert_eq!(ids(c.get_transactions(2, 0)), Vec::<u64>::new());
    assert_eq!(ids(c.get_pending_transactions_paginated(0, 10)), vec![0, 2, 4]);
    assert_eq!(ids(c.get_pending_transactions_paginated(1, 3)), vec![2]);
    assert_eq!(c.get_transaction_count(), 5);
    assert!(c.has_confirmed(0, id("alice")));
    assert!(!c.has_confirmed(0, id("bob")));
    assert!(!c.has_confirmed(8, id("alice")));
    assert!(c.get_transaction(8).is_none());
}

#[test]
fn migration_refuses_a_repeated_identifier() {
    let legacy = LegacyState {
        owners: vec![id("alice")],
        num_confirmations: 1,
        transactions: vec![record(0, Vec::new()), record(1, Vec::new()), record(0, Vec::new())],
        pending_callbacks: 0,
        callback_gas: 20_000_000_000_000,
        storage_deposit: 10_000_000_000_000_000_000_000,
        next_tx_id: 2,
        reserved_balance: 0,
    };
    assert_eq!(
        MultisigContract::migrate(StoredState::Legacy(legacy)).err(),
        Some(MultisigError::DuplicateTransactionId)
    );
}

#[test]
fn migration_runs_once() {
    assert_eq!(
        MultisigContract::migrate(StoredState::Versioned { state_version: 2 }).err(),
        Some(MultisigError::AlreadyMigrated)
    );
    assert_eq!(
        MultisigContract::migrate(StoredState::Versioned { state_version: 3 }).err(),
        Some(MultisigError::UnknownStateVersion)
    );
    let legacy = LegacyState {
        owners: vec![id("alice")],
        num_confirmations: 1,
        transactions: vec![record(0, Vec::new()), record(1, Vec::new())],
        pending_callbacks: 0,
        callback_gas: 20_000_000_000_000,
        storage_deposit: 10_000_000_000_000_000_000_000,
        next_tx_id: 2,
        reserved_balance: 0,
    };
    let migrated = MultisigContract::migrate(StoredState::Legacy(legacy)).unwrap();
    assert!(migrated.is_valid());
    assert_eq!(migrated.storage.tx_ids, vec![0, 1]);
    let again = StoredState::Versioned { state_version: migrated.state_version };
    assert_eq!(MultisigContract::migrate(again).err(), Some(MultisigError::AlreadyMigrated));
    assert_eq!(migrated.storage.tx_ids, vec![0, 1]);
    assert_eq!(migrated.storage.get_transaction_index(1), Some(1));
}
