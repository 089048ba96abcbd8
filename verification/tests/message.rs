use capycoin::account::{Account, AccountCreatedResult, AccountError};
use capycoin::client::{client_socket_path, correlate};
use capycoin::ledger::{Transaction, TransactionError, TransactionReceipt};
use capycoin::message::{
    gateway_error, ClientMessage, ClientMessagePacket, ServerError, ServerMessage,
    ServerMessagePacket,
};
use capycoin::sys::fresh_uuid;

#[test]
fn test_client_packet_roundtrip_every_variant() {
    let messages = vec![
        ClientMessage::CreateNewAccount,
        ClientMessage::GetAccount { account_id: fresh_uuid() },
        ClientMessage::GetAccounts,
        ClientMessage::GetTransactions {
            account_id: fresh_uuid(),
            time_range_start: -5,
            time_range_end: i64::MAX,
        },
        ClientMessage::GetTransaction { account_id: fresh_uuid(), transaction_id: fresh_uuid() },
        ClientMessage::CreateTransaction {
            sender_id: fresh_uuid(),
            receiver_id: fresh_uuid(),
            amount: 12345,
        },
    ];
    for m in messages {
        let p = m.to_packet();
        let js = p.to_json().unwrap();
        let p2 = ClientMessagePacket::from_json(&js).expect("canonical text must decode");
        assert_eq!(p, p2);
    }
}

#[test]
fn test_client_packet_known_encoding() {
    let p = ClientMessagePacket { v: 1, message_id: 0, message: ClientMessage::GetAccounts };
    let js = p.to_json().unwrap();
    let zeros: String = "0".repeat(32);
    assert_eq!(js, format!("CP+0000000000000001{}L", zeros));
}

#[test]
fn test_server_packet_roundtrip_every_variant() {
    let account = Account { account_id: fresh_uuid(), created: 7, funds: 100 };
    let tx = Transaction {
        transaction_id: fresh_uuid(),
        timestamp: 3,
        sender_account_id: fresh_uuid(),
        receiver_account_id: fresh_uuid(),
        amount: 40,
        fee: 0,
    };
    let receipt = TransactionReceipt {
        transaction_id: tx.transaction_id,
        timestamp: 3,
        sender_account_id: tx.sender_account_id,
        receiver_account_id: tx.receiver_account_id,
        sender_account_funds: 60,
        fee: 0,
    };
    let acr = AccountCreatedResult { account_id: account.account_id, timestamp: 9 };
    let err = ServerError {
        error_type: "TransactionError".to_string(),
        error_message: "SenderAccountNotEnoughFunds — solde insuffisant".to_string(),
    };
    let messages = vec![
        ServerMessage::CreateNewAccountResponse(Ok(acr)),
        ServerMessage::GetAccountResponse(Ok(account)),
        ServerMessage::GetAccountsResponse(Ok(vec![account, account])),
        ServerMessage::GetAccountsResponse(Err(err.clone())),
        ServerMessage::GetTransactionsResponse(Ok(vec![tx])),
        ServerMessage::GetTransactionResponse(Ok(tx)),
        ServerMessage::CreateTransactionResponse(Ok(receipt)),
        ServerMessage::CreateTransactionResponse(Err(err)),
    ];
    for m in messages {
        let p = m.to_packet();
        let js = p.to_json().unwrap();
        let p2 = ServerMessagePacket::from_json(&js).expect("canonical text must decode");
        assert_eq!(p, p2);
    }
}

#[test]
fn test_response_echoes_request_id() {
    let req = ClientMessage::GetAccounts.to_packet();
    let resp = ServerMessage::GetAccountsResponse(Ok(vec![])).as_resp_for(&req);
    assert_eq!(resp.message_id, req.message_id);
    assert_eq!(resp.v, 1);
}

#[test]
fn test_from_json_rejects_malformed() {
    assert!(ClientMessagePacket::from_json("").is_none());
    assert!(ClientMessagePacket::from_json("garbage").is_none());
    assert!(ClientMessagePacket::from_json("{\"v\":1}").is_none());
    assert!(ServerMessagePacket::from_json("nonsense").is_none());
}

#[test]
fn test_from_json_rejects_version_mismatch() {
    let p = ClientMessagePacket {
        v: 2,
        message_id: fresh_uuid(),
        message: ClientMessage::CreateNewAccount,
    };
    let js = p.to_json().unwrap();
    assert!(ClientMessagePacket::from_json(&js).is_none());
}

#[test]
fn test_from_json_rejects_trailing_bytes() {
    let p = ClientMessage::GetAccounts.to_packet();
    let mut js = p.to_json().unwrap();
    js.push('x');
    assert!(ClientMessagePacket::from_json(&js).is_none());
}

#[test]
fn test_error_names() {
    let e = ServerError::from_transaction_error(TransactionError::AmountIsZero);
    assert_eq!(e.error_type, "TransactionError");
    assert_eq!(e.error_message, "AmountIsZero");

    let e = ServerError::from_account_error(AccountError::AccountDoesNotExist);
    assert_eq!(e.error_type, "AccountError");
    assert_eq!(e.error_message, "AccountDoesNotExist");
}

#[test]
fn test_correlate_matches_ids() {
    let req = ClientMessage::GetAccounts.to_packet();
    let good = ServerMessage::GetAccountsResponse(Ok(vec![])).as_resp_for(&req);
    let m = correlate(&req, Some(good)).expect("matching id is a response");
    assert_eq!(m, ServerMessage::GetAccountsResponse(Ok(vec![])));

    let other = ServerMessage::GetAccountsResponse(Ok(vec![])).to_packet();
    if other.message_id != req.message_id {
        assert!(correlate(&req, Some(other)).is_none());
    }
    assert!(correlate(&req, None).is_none());
}

#[test]
fn test_client_socket_path_unique() {
    let s1 = client_socket_path(41, 7).unwrap();
    let s2 = client_socket_path(41, 8).unwrap();
    let s3 = client_socket_path(42, 7).unwrap();
    assert_ne!(s1, s2);
    assert_ne!(s1, s3);
    assert!(s1.starts_with("/tmp/capycoin-client."));
    assert!(s1.ends_with("0000000000000007"));
}

#[test]
fn test_gateway_error() {
    let e = gateway_error("Token required!");
    assert_eq!(e.error_type, "GatewayError");
    assert_eq!(e.error_message, "Token required!");
}
