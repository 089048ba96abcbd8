use capycoin::account::{create_accounts_table, save_account, Account};
use capycoin::ledger::{
    create_ledger_table, get_transaction, get_transactions, save_transaction, Transaction,
    TransactionError,
};
use capycoin::store::Store;
use capycoin::sys::{fresh_uuid, now_nanos};

fn fresh_store() -> Store {
    let mut store = Store::open_in_memory().unwrap();
    create_ledger_table(&mut store).unwrap();
    create_accounts_table(&mut store).unwrap();
    store
}

#[test]
fn test_new_transaction() {
    let tx1 = Transaction::new(fresh_uuid(), fresh_uuid(), 100, 0);
    let tx2 = Transaction::new(fresh_uuid(), fresh_uuid(), 100, 0);
    assert_ne!(tx1.transaction_id, tx2.transaction_id);
    assert_ne!(tx1.timestamp, tx2.timestamp);
}

#[test]
fn test_create_ledger_table() {
    let mut store = Store::open_in_memory().unwrap();

    create_ledger_table(&mut store).unwrap();

    // With the table in place a ledger scan succeeds and finds nothing.
    let txs = get_transactions(&store, fresh_uuid(), (0, now_nanos())).unwrap();
    assert_eq!(txs.len(), 0);

    // Creating the table again is harmless.
    create_ledger_table(&mut store).unwrap();
}

#[test]
fn test_transaction_save_get() {
    let mut store = fresh_store();

    let mut tx_account = Account::new();
    tx_account.funds = 100;

    let rx_account = Account::new();

    save_account(&mut store, &tx_account).unwrap();
    save_account(&mut store, &rx_account).unwrap();

    let tx = Transaction::new(tx_account.account_id, rx_account.account_id, 100, 0);
    save_transaction(&mut store, &tx).unwrap();

    let txs = get_transactions(&store, tx_account.account_id, (0, now_nanos())).unwrap();
    assert_eq!(txs.len(), 1);
}

#[test]
fn test_transaction_sender_not_exist() {
    let mut store = fresh_store();

    let tx = Transaction::new(fresh_uuid(), fresh_uuid(), 100, 0);
    let err = save_transaction(&mut store, &tx).expect_err("should not allow this");
    assert_eq!(err, TransactionError::SenderAccountDoesNotExist);
}

#[test]
fn test_transaction_sender_not_enough_funds() {
    let mut store = fresh_store();

    let sender = Account::new();
    save_account(&mut store, &sender).unwrap();

    let tx = Transaction::new(sender.account_id, fresh_uuid(), 100, 0);
    let err = save_transaction(&mut store, &tx).expect_err("should not allow this");
    assert_eq!(err, TransactionError::SenderAccountNotEnoughFunds);
}

#[test]
fn test_transaction_receiver_not_exist() {
    let mut store = fresh_store();

    let mut sender = Account::new();
    sender.funds = 100;
    save_account(&mut store, &sender).unwrap();

    let tx = Transaction::new(sender.account_id, fresh_uuid(), 100, 0);
    let err = save_transaction(&mut store, &tx).expect_err("should not allow this");
    assert_eq!(err, TransactionError::ReceiverAccountDoesNotExist);
}

#[test]
fn test_transaction_negative_amount() {
    let mut store = Store::open_in_memory().unwrap();
    let tx = Transaction::new(fresh_uuid(), fresh_uuid(), -100, 0);
    let err = save_transaction(&mut store, &tx).expect_err("should not allow negative amounts!");
    assert_eq!(err, TransactionError::AmountIsNegative);
}

#[test]
fn test_transaction_zero_amount() {
    let mut store = Store::open_in_memory().unwrap();
    let tx = Transaction::new(fresh_uuid(), fresh_uuid(), 0, 0);
    let err = save_transaction(&mut store, &tx).expect_err("should not allow zero amounts!");
    assert_eq!(err, TransactionError::AmountIsZero);
}

#[test]
fn test_transaction_negative_fee() {
    let mut store = Store::open_in_memory().unwrap();
    let tx = Transaction::new(fresh_uuid(), fresh_uuid(), 100, -10);
    let err = save_transaction(&mut store, &tx).expect_err("should not allow negative fees!");
    assert_eq!(err, TransactionError::FeeIsNegative);
}

#[test]
fn test_transaction_same_sender_receiver() {
    let mut store = Store::open_in_memory().unwrap();
    let id = fresh_uuid();
    let tx = Transaction::new(id, id, 100, 0);
    let err = save_transaction(&mut store, &tx).expect_err("should not allow self-transfers!");
    assert_eq!(err, TransactionError::SenderReceiverAreTheSame);
}

#[test]
fn test_get_transactions_none() {
    let mut store = Store::open_in_memory().unwrap();
    create_ledger_table(&mut store).unwrap();

    let txs = get_transactions(&store, fresh_uuid(), (0, now_nanos())).unwrap();
    assert_eq!(txs.len(), 0);
}

#[test]
fn test_get_transactions_none_in_range() {
    let mut store = fresh_store();

    let mut tx_account = Account::new();
    tx_account.funds = 100;

    let rx_account = Account::new();

    save_account(&mut store, &tx_account).unwrap();
    save_account(&mut store, &rx_account).unwrap();

    let tx = Transaction::new(tx_account.account_id, rx_account.account_id, 100, 0);
    save_transaction(&mut store, &tx).unwrap();

    let after = now_nanos();
    let txs = get_transactions(&store, tx_account.account_id, (after, after)).unwrap();
    assert_eq!(txs.len(), 0);
}

#[test]
fn test_get_transaction_by_id() {
    let mut store = fresh_store();

    let mut sender = Account::new();
    sender.funds = 100;
    let receiver = Account::new();
    save_account(&mut store, &sender).unwrap();
    save_account(&mut store, &receiver).unwrap();

    let tx = Transaction::new(sender.account_id, receiver.account_id, 30, 0);
    let receipt = save_transaction(&mut store, &tx).unwrap();

    let found = get_transaction(&store, sender.account_id, receipt.transaction_id).unwrap();
    assert_eq!(found.transaction_id, receipt.transaction_id);
    assert_eq!(found.amount, 30);

    // The receiver may fetch it too, and two reads agree.
    let again = get_transaction(&store, receiver.account_id, receipt.transaction_id).unwrap();
    assert_eq!(found, again);
}

#[test]
fn test_get_transaction_does_not_exist() {
    let mut store = fresh_store();
    let err = get_transaction(&store, fresh_uuid(), fresh_uuid())
        .expect_err("unknown transaction id");
    assert_eq!(err, TransactionError::TransactionDoesNotExist);
}

#[test]
fn test_get_transaction_permission_denied() {
    let mut store = fresh_store();

    let mut sender = Account::new();
    sender.funds = 100;
    let receiver = Account::new();
    save_account(&mut store, &sender).unwrap();
    save_account(&mut store, &receiver).unwrap();

    let tx = Transaction::new(sender.account_id, receiver.account_id, 30, 0);
    let receipt = save_transaction(&mut store, &tx).unwrap();

    let outsider = fresh_uuid();
    let err = get_transaction(&store, outsider, receipt.transaction_id)
        .expect_err("a stranger may not read the transaction");
    assert_eq!(err, TransactionError::PermissionDenied);
}
