use capycoin::account::{create_accounts_table, load_account, save_account, Account};
use capycoin::dispatch::{handle_datagram, message_dispatch};
use capycoin::ledger::{
    create_ledger_table, get_transactions, save_transaction, Transaction, TransactionError,
};
use capycoin::message::{ClientMessage, ClientMessagePacket, ServerMessage, ServerMessagePacket};
use capycoin::store::Store;
use capycoin::sys::{fresh_uuid, now_nanos};

fn fresh_store() -> Store {
    let mut store = Store::open_in_memory().unwrap();
    create_accounts_table(&mut store).unwrap();
    create_ledger_table(&mut store).unwrap();
    store
}

fn seeded_account(store: &mut Store, funds: i64) -> Account {
    let mut a = Account::new();
    a.funds = funds;
    save_account(store, &a).unwrap();
    a
}

#[test]
fn scenario_transfer_moves_funds() {
    let mut store = fresh_store();
    let a = seeded_account(&mut store, 100);
    let b = seeded_account(&mut store, 0);

    let tx = Transaction::new(a.account_id, b.account_id, 40, 0);
    let receipt = save_transaction(&mut store, &tx).unwrap();
    assert_eq!(receipt.sender_account_funds, 60);

    assert_eq!(load_account(&store, a.account_id).unwrap().funds, 60);
    assert_eq!(load_account(&store, b.account_id).unwrap().funds, 40);

    let txs = get_transactions(&store, a.account_id, (0, now_nanos())).unwrap();
    assert_eq!(txs.len(), 1);
    assert_eq!(txs[0].sender_account_id, a.account_id);
    assert_eq!(txs[0].receiver_account_id, b.account_id);
    assert_eq!(txs[0].amount, 40);
}

#[test]
fn scenario_insufficient_funds_changes_nothing() {
    let mut store = fresh_store();
    let a = seeded_account(&mut store, 60);
    let b = seeded_account(&mut store, 0);

    let tx = Transaction::new(a.account_id, b.account_id, 1000, 0);
    let err = save_transaction(&mut store, &tx).expect_err("sender is short of funds");
    assert_eq!(err, TransactionError::SenderAccountNotEnoughFunds);

    assert_eq!(load_account(&store, a.account_id).unwrap().funds, 60);
    assert_eq!(load_account(&store, b.account_id).unwrap().funds, 0);
    let txs = get_transactions(&store, a.account_id, (0, now_nanos())).unwrap();
    assert_eq!(txs.len(), 0);
}

#[test]
fn scenario_unknown_sender_records_nothing() {
    let mut store = fresh_store();
    let b = seeded_account(&mut store, 0);

    let unknown = Account::new().account_id;
    let tx = Transaction::new(unknown, b.account_id, 10, 0);
    let err = save_transaction(&mut store, &tx).expect_err("sender does not exist");
    assert_eq!(err, TransactionError::SenderAccountDoesNotExist);

    let txs = get_transactions(&store, b.account_id, (0, now_nanos())).unwrap();
    assert_eq!(txs.len(), 0);
}

#[test]
fn scenario_fresh_accounts_are_distinct() {
    let a1 = Account::new();
    let a2 = Account::new();
    assert_ne!(a1.account_id, a2.account_id);
    assert_ne!(a1.created, a2.created);
}

#[test]
fn scenario_dispatch_round() {
    let mut store = fresh_store();
    let a = seeded_account(&mut store, 100);
    let b = seeded_account(&mut store, 0);

    // A transfer request through the dispatcher.
    let req = ClientMessage::CreateTransaction {
        sender_id: a.account_id,
        receiver_id: b.account_id,
        amount: 25,
    }
    .to_packet();
    let resp = message_dispatch(&mut store, &req);
    assert_eq!(resp.message_id, req.message_id);
    match resp.message {
        ServerMessage::CreateTransactionResponse(Ok(receipt)) => {
            assert_eq!(receipt.sender_account_funds, 75);
        },
        other => panic!("unexpected response: {:?}", other),
    }

    // A failing transfer still gets an answer, as an error payload.
    let req = ClientMessage::CreateTransaction {
        sender_id: a.account_id,
        receiver_id: b.account_id,
        amount: 0,
    }
    .to_packet();
    let resp = message_dispatch(&mut store, &req);
    assert_eq!(resp.message_id, req.message_id);
    match resp.message {
        ServerMessage::CreateTransactionResponse(Err(e)) => {
            assert_eq!(e.error_type, "TransactionError");
            assert_eq!(e.error_message, "AmountIsZero");
        },
        other => panic!("unexpected response: {:?}", other),
    }
}

#[test]
fn scenario_datagram_round() {
    let mut store = fresh_store();

    let req = ClientMessage::CreateNewAccount.to_packet();
    let wire = req.to_json().unwrap().into_bytes();

    let reply = handle_datagram(&mut store, &wire).expect("a decodable request is answered");
    let reply_text = String::from_utf8(reply).unwrap();
    let resp = ServerMessagePacket::from_json(&reply_text).expect("the reply is canonical");
    assert_eq!(resp.message_id, req.message_id);
    match resp.message {
        ServerMessage::CreateNewAccountResponse(Ok(created)) => {
            assert!(load_account(&store, created.account_id).is_ok());
        },
        other => panic!("unexpected response: {:?}", other),
    }

    // An undecodable datagram produces no response at all.
    let junk = vec![1u8, 2, 3, 4];
    assert!(handle_datagram(&mut store, &junk).is_none());
}

#[test]
fn scenario_version_mismatch_is_dropped() {
    let mut store = fresh_store();
    let stale = ClientMessagePacket {
        v: 2,
        message_id: fresh_uuid(),
        message: ClientMessage::CreateNewAccount,
    };
    let wire = stale.to_json().unwrap().into_bytes();
    assert!(handle_datagram(&mut store, &wire).is_none());
}

#[test]
fn scenario_receiver_overflow_aborts_cleanly() {
    let mut store = fresh_store();
    let a = seeded_account(&mut store, 100);
    let b = seeded_account(&mut store, i64::MAX);

    let tx = Transaction::new(a.account_id, b.account_id, 40, 0);
    let err = save_transaction(&mut store, &tx)
        .expect_err("crediting past the balance range must abort");
    assert_eq!(err, TransactionError::StoreError);

    assert_eq!(load_account(&store, a.account_id).unwrap().funds, 100);
    assert_eq!(load_account(&store, b.account_id).unwrap().funds, i64::MAX);
    let txs = get_transactions(&store, a.account_id, (0, now_nanos())).unwrap();
    assert_eq!(txs.len(), 0);
}
