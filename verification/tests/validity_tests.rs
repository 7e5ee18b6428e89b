use near_multisig::contract::{CallContext, MultisigContract};
use near_multisig::storage::{MultisigStorage, TransactionStorage};
use near_multisig::{Action, Transaction};

fn id(name: &str) -> String {
    name.to_string()
}

fn ctx(name: &str) -> CallContext {
    CallContext {
        predecessor: id(name),
        current_account: id("multisig"),
        attached_deposit: 10_000_000_000_000_000_000_000,
        account_balance: 10u128.pow(26),
        block_timestamp: 0,
    }
}

fn record(tx_id: u64) -> Transaction {
    Transaction {
        id: tx_id,
        receiver_id: id("x"),
        actions: vec![Action::Transfer { amount: 1 }],
        confirmations: vec![id("alice")],
        executed: false,
        cancelled: false,
        storage_depositor: id("alice"),
        expiration: None,
        execution_attempted: false,
    }
}

fn busy_engine() -> MultisigContract {
    let mut c = MultisigContract::new(vec![id("alice"), id("bob")], 2).unwrap();
    for _ in 0..3 {
        c.submit_transaction(&ctx("alice"), id("x"), vec![Action::Transfer { amount: 1 }], None)
            .unwrap();
    }
    c.confirm_transaction(&ctx("bob"), 1).unwrap();
    c.cancel_transaction(&ctx("alice"), 0).unwrap();
    c.execute_transaction(&ctx("bob"), 1).unwrap();
    c
}

#[test]
fn states_that_the_engine_makes_are_valid() {
    assert!(MultisigContract::new(vec![id("alice")], 1).unwrap().is_valid());
    let mut c = busy_engine();
    assert!(c.is_valid());
    c.on_execute_callback(1, true);
    assert!(c.is_valid());
    c.cleanup_old_transactions(&ctx("alice"), 10).unwrap();
    assert!(c.is_valid());
    assert_eq!(c.storage.tx_ids, vec![2]);
    c.remove_owner(&ctx("alice"), id("bob")).unwrap_err();
    c.add_owner(&ctx("alice"), id("carol")).unwrap();
    c.remove_owner(&ctx("alice"), id("bob")).unwrap();
    assert!(c.is_valid());
}

#[test]
fn broken_registry_is_found() {
    let mut c = busy_engine();
    c.num_confirmations = 0;
    assert!(!c.is_valid());
    c.num_confirmations = 3;
    assert!(!c.is_valid());
    c.num_confirmations = 2;
    assert!(c.is_valid());
    c.owners.push(id("alice"));
    assert!(!c.is_valid());
    c.owners.pop();
    c.owners = (0..51).map(|n| format!("o{}", n)).collect();
    assert!(!c.is_valid());
}

#[test]
fn broken_records_are_found() {
    let mut c = busy_engine();
    c.next_tx_id = 2;
    assert!(!c.is_valid());
    c.next_tx_id = 3;
    assert!(c.is_valid());
    let mut twice = c.get_transaction(2).unwrap();
    twice.confirmations.push(id("alice"));
    c.storage.tx_by_id.insert(2, twice);
    assert!(!c.is_valid());
}

#[test]
fn broken_store_is_found() {
    let mut store = MultisigStorage::new();
    assert!(store.is_consistent());
    store.upsert_transaction(record(4));
    store.upsert_transaction(record(9));
    assert!(store.is_consistent());

    store.tx_ids.push(4);
    assert!(!store.is_consistent());
    store.tx_ids.pop();
    assert!(store.is_consistent());

    store.tx_index.insert(9, 0);
    assert!(!store.is_consistent());
    store.tx_index.insert(9, 1);
    assert!(store.is_consistent());

    store.tx_index.insert(5, 2);
    assert!(!store.is_consistent());
    store.tx_index.remove(&5);

    store.remove_transaction(4);
    assert!(!store.is_consistent());
    store.rebuild_storage(vec![9]);
    assert!(store.is_consistent());

    store.tx_by_id.insert(7, record(7));
    assert!(!store.is_consistent());
}

#[test]
fn record_under_a_foreign_identifier_is_found() {
    let mut c = busy_engine();
    let mut foreign = c.get_transaction(2).unwrap();
    foreign.id = 5;
    c.storage.tx_by_id.insert(2, foreign);
    assert!(!c.is_valid());
}

#[test]
fn record_both_executed_and_cancelled_is_found() {
    let mut c = busy_engine();
    let mut both = c.get_transaction(0).unwrap();
    assert!(both.cancelled);
    both.executed = true;
    c.storage.tx_by_id.insert(0, both);
    assert!(!c.is_valid());
}
