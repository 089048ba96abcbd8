//! The dispatch core of the serving loop: one request envelope in, one
//! response envelope out, routed to the account ledger or the transfer
//! engine. The surrounding transport loop performs the receives and sends
//! and hands every datagram here.

use vstd::prelude::*;

use crate::account::{
    get_accounts_post, load_account_post, save_account_post, Account,
};
use crate::ledger::{
    get_transaction_post, save_transaction_post, spec_matching_transactions, Transaction,
    TransactionError,
};
use crate::message::{
    spec_account_error_name, spec_transaction_error_name, ClientMessage, ClientMessagePacket,
    ServerError, ServerMessage, ServerMessagePacket, ServerMessagePacketV, ServerMessageV,
};
use crate::store::{store_accounts, store_in_txn, store_ledger, Store};
use crate::wire::{encode_server_packet, spec_dec_client_packet, spec_enc_server_packet};
use crate::PROTOCOL_VERSION;

verus! {

/// What the response to one request says, and what handling it did to the
/// store. Queries leave the store unchanged and answer from it; the two
/// mutating requests behave as `save_account` and `save_transaction` state,
/// for an account (or transfer request) freshly created from the message.
/// Every domain error travels as a `ServerError` naming the error taxonomy
/// and the variant.
pub open spec fn dispatch_post(
    pre_accounts: Map<u128, Account>,
    pre_ledger: Seq<Transaction>,
    post_accounts: Map<u128, Account>,
    post_ledger: Seq<Transaction>,
    req: ClientMessage,
    resp: ServerMessageV,
) -> bool {
    match req {
        ClientMessage::CreateNewAccount => {
            &&& post_ledger == pre_ledger
            &&& resp matches ServerMessageV::CreateNewAccountResponse(res)
            &&& match res {
                Ok(acr) => {
                    &&& !pre_accounts.contains_key(acr.account_id)
                    &&& post_accounts.contains_key(acr.account_id)
                    &&& post_accounts[acr.account_id].account_id == acr.account_id
                    &&& post_accounts[acr.account_id].funds == 0
                    &&& post_accounts == pre_accounts.insert(
                        acr.account_id,
                        post_accounts[acr.account_id],
                    )
                },
                Err(e) => post_accounts == pre_accounts && e.error_type == "AccountError"@,
            }
        },
        ClientMessage::GetAccount { account_id } => {
            &&& post_accounts == pre_accounts
            &&& post_ledger == pre_ledger
            &&& resp matches ServerMessageV::GetAccountResponse(res)
            &&& match res {
                Ok(a) => load_account_post(pre_accounts, account_id, Ok(a)),
                Err(e) => {
                    &&& e.error_type == "AccountError"@
                    &&& exists|err: crate::account::AccountError|
                        #[trigger] load_account_post(pre_accounts, account_id, Err(err))
                            && e.error_message == spec_account_error_name(err)
                },
            }
        },
        ClientMessage::GetAccounts => {
            &&& post_accounts == pre_accounts
            &&& post_ledger == pre_ledger
            &&& resp matches ServerMessageV::GetAccountsResponse(res)
            &&& match res {
                Ok(v) => get_accounts_post(pre_accounts, v),
                Err(e) => e.error_type == "AccountError"@,
            }
        },
        ClientMessage::GetTransactions { account_id, time_range_start, time_range_end } => {
            &&& post_accounts == pre_accounts
            &&& post_ledger == pre_ledger
            &&& resp matches ServerMessageV::GetTransactionsResponse(res)
            &&& match res {
                Ok(v) => v == spec_matching_transactions(
                    pre_ledger,
                    account_id,
                    time_range_start,
                    time_range_end,
                ),
                Err(e) => e.error_type == "TransactionError"@,
            }
        },
        ClientMessage::GetTransaction { account_id, transaction_id } => {
            &&& post_accounts == pre_accounts
            &&& post_ledger == pre_ledger
            &&& resp matches ServerMessageV::GetTransactionResponse(res)
            &&& match res {
                Ok(t) => get_transaction_post(pre_ledger, account_id, transaction_id, Ok(t)),
                Err(e) => {
                    &&& e.error_type == "TransactionError"@
                    &&& exists|err: TransactionError|
                        #[trigger] get_transaction_post(
                            pre_ledger,
                            account_id,
                            transaction_id,
                            Err(err),
                        ) && e.error_message == spec_transaction_error_name(err)
                },
            }
        },
        ClientMessage::CreateTransaction { sender_id, receiver_id, amount } => {
            &&& resp matches ServerMessageV::CreateTransactionResponse(res)
            &&& match res {
                Ok(receipt) => {
                    let sender0 = pre_accounts[sender_id];
                    let receiver0 = pre_accounts[receiver_id];
                    &&& amount > 0
                    &&& sender_id != receiver_id
                    &&& pre_accounts.contains_key(sender_id)
                    &&& pre_accounts.contains_key(receiver_id)
                    &&& sender0.funds >= amount
                    &&& 0 <= receiver0.funds + amount <= i64::MAX
                    &&& receipt.sender_account_id == sender_id
                    &&& receipt.receiver_account_id == receiver_id
                    &&& receipt.fee == 0
                    &&& receipt.sender_account_funds == sender0.funds - amount
                    &&& post_accounts == pre_accounts.insert(
                        sender_id,
                        (Account {
                            account_id: sender_id,
                            created: sender0.created,
                            funds: (sender0.funds - amount) as i64,
                        }),
                    ).insert(
                        receiver_id,
                        (Account {
                            account_id: receiver_id,
                            created: receiver0.created,
                            funds: (receiver0.funds + amount) as i64,
                        }),
                    )
                    &&& post_ledger == pre_ledger.push(
                        (Transaction {
                            transaction_id: receipt.transaction_id,
                            timestamp: receipt.timestamp,
                            sender_account_id: sender_id,
                            receiver_account_id: receiver_id,
                            amount: amount,
                            fee: 0,
                        }),
                    )
                },
                Err(e) => {
                    &&& post_accounts == pre_accounts
                    &&& post_ledger == pre_ledger
                    &&& e.error_type == "TransactionError"@
                    &&& exists|err: TransactionError, t: Transaction|
                        t.sender_account_id == sender_id && t.receiver_account_id == receiver_id
                            && t.amount == amount && t.fee == 0 && #[trigger] save_transaction_post(
                            pre_accounts,
                            pre_ledger,
                            post_accounts,
                            post_ledger,
                            t,
                            Err(err),
                        ) && e.error_message == spec_transaction_error_name(err)
                },
            }
        },
    }
}

/// Routes one request to the account ledger or the transfer engine and wraps
/// the outcome in a response envelope carrying the request's correlation id.
/// A handler's domain error becomes a `ServerError` payload inside a normal
/// response; the dispatcher itself always answers.
#[verifier::rlimit(100)]
#[verifier::spinoff_prover]
pub fn message_dispatch(store: &mut Store, message: &ClientMessagePacket) -> (resp:
    ServerMessagePacket)
    requires
        !store_in_txn(old(store)),
    ensures
        !store_in_txn(final(store)),
        resp.v == PROTOCOL_VERSION,
        resp.message_id == message.message_id,
        dispatch_post(
            store_accounts(old(store)),
            store_ledger(old(store)),
            store_accounts(final(store)),
            store_ledger(final(store)),
            message.message,
            resp.message@,
        ),
{
    match &message.message {
        ClientMessage::CreateNewAccount => {
            let acct = Account::new();
            match crate::account::save_account(store, &acct) {
                Ok(created) => ServerMessage::CreateNewAccountResponse(Ok(created)).as_resp_for(
                    message,
                ),
                Err(e) => ServerMessage::CreateNewAccountResponse(
                    Err(ServerError::from_account_error(e)),
                ).as_resp_for(message),
            }
        },
        ClientMessage::GetAccount { account_id } => {
            match crate::account::load_account(store, *account_id) {
                Ok(a) => ServerMessage::GetAccountResponse(Ok(a)).as_resp_for(message),
                Err(e) => ServerMessage::GetAccountResponse(
                    Err(ServerError::from_account_error(e)),
                ).as_resp_for(message),
            }
        },
        ClientMessage::GetAccounts => {
            match crate::account::get_accounts(store) {
                Ok(v) => ServerMessage::GetAccountsResponse(Ok(v)).as_resp_for(message),
                Err(e) => ServerMessage::GetAccountsResponse(
                    Err(ServerError::from_account_error(e)),
                ).as_resp_for(message),
            }
        },
        ClientMessage::GetTransactions { account_id, time_range_start, time_range_end } => {
            match crate::ledger::get_transactions(
                store,
                *account_id,
                (*time_range_start, *time_range_end),
            ) {
                Ok(v) => ServerMessage::GetTransactionsResponse(Ok(v)).as_resp_for(message),
                Err(e) => ServerMessage::GetTransactionsResponse(
                    Err(ServerError::from_transaction_error(e)),
                ).as_resp_for(message),
            }
        },
        ClientMessage::GetTransaction { account_id, transaction_id } => {
            match crate::ledger::get_transaction(store, *account_id, *transaction_id) {
                Ok(t) => ServerMessage::GetTransactionResponse(Ok(t)).as_resp_for(message),
                Err(e) => ServerMessage::GetTransactionResponse(
                    Err(ServerError::from_transaction_error(e)),
                ).as_resp_for(message),
            }
        },
        ClientMessage::CreateTransaction { sender_id, receiver_id, amount } => {
            let t = Transaction::new(*sender_id, *receiver_id, *amount, 0);
            match crate::ledger::save_transaction(store, &t) {
                Ok(receipt) => ServerMessage::CreateTransactionResponse(Ok(receipt)).as_resp_for(
                    message,
                ),
                Err(e) => ServerMessage::CreateTransactionResponse(
                    Err(ServerError::from_transaction_error(e)),
                ).as_resp_for(message),
            }
        },
    }
}

/// One serving-loop iteration's decision on a received datagram: a datagram
/// that decodes to a request envelope is dispatched and answered with the
/// canonical bytes of a response envelope carrying the same correlation id;
/// one that does not decode produces no response and touches nothing.
pub fn handle_datagram(store: &mut Store, data: &Vec<u8>) -> (r: Option<Vec<u8>>)
    requires
        !store_in_txn(old(store)),
    ensures
        !store_in_txn(final(store)),
        match spec_dec_client_packet(data@) {
            Some(req) => r matches Some(bytes) && exists|resp: ServerMessagePacketV|
                {
                    &&& #[trigger] spec_enc_server_packet(resp) == bytes@
                    &&& resp.v == PROTOCOL_VERSION
                    &&& resp.message_id == req.message_id
                    &&& dispatch_post(
                        store_accounts(old(store)),
                        store_ledger(old(store)),
                        store_accounts(final(store)),
                        store_ledger(final(store)),
                        req.message,
                        resp.message,
                    )
                },
            None => r is None && store_accounts(final(store)) == store_accounts(old(store))
                && store_ledger(final(store)) == store_ledger(old(store)),
        },
{
    let packet = match crate::wire::decode_client_packet(data) {
        Some(p) => p,
        None => {
            return None;
        },
    };
    let resp = message_dispatch(store, &packet);
    let bytes = encode_server_packet(&resp);
    proof {
        assert(spec_enc_server_packet(resp@) == bytes@);
    }
    Some(bytes)
}

} // verus!
