//! Protocol envelopes: versioned, correlation-id-tagged request and response
//! packets around a closed set of message variants. Errors travel inside
//! responses as `ServerError` values; the transport itself never fails at
//! the framing level.

use vstd::prelude::*;
use vstd::utf8::{decode_utf8, encode_utf8, valid_utf8};

use crate::account::{Account, AccountCreatedResult, AccountError};
use crate::ledger::{Transaction, TransactionError, TransactionReceipt};
use crate::sys::fresh_uuid;
use crate::PROTOCOL_VERSION;

verus! {

#[derive(Clone, Copy, Debug, PartialEq, Eq, Structural)]
pub enum ClientMessage {
    CreateNewAccount,
    GetAccount { account_id: u128 },
    GetAccounts,
    GetTransactions { account_id: u128, time_range_start: i64, time_range_end: i64 },
    GetTransaction { account_id: u128, transaction_id: u128 },
    CreateTransaction { sender_id: u128, receiver_id: u128, amount: i64 },
}

#[derive(Clone, Copy, Debug, PartialEq, Eq, Structural)]
pub struct ClientMessagePacket {
    pub v: i32,
    pub message_id: u128,
    pub message: ClientMessage,
}

/// The wire form of a domain error: a stable string discriminant plus a
/// human-readable message.
#[derive(Clone, Debug, PartialEq, Eq)]
pub struct ServerError {
    pub error_type: String,
    pub error_message: String,
}

#[derive(Debug, PartialEq, Eq)]
pub enum ServerMessage {
    CreateNewAccountResponse(Result<AccountCreatedResult, ServerError>),
    GetAccountResponse(Result<Account, ServerError>),
    GetAccountsResponse(Result<Vec<Account>, ServerError>),
    GetTransactionsResponse(Result<Vec<Transaction>, ServerError>),
    GetTransactionResponse(Result<Transaction, ServerError>),
    CreateTransactionResponse(Result<TransactionReceipt, ServerError>),
}

#[derive(Debug, PartialEq, Eq)]
pub struct ServerMessagePacket {
    pub v: i32,
    pub message_id: u128,
    pub message: ServerMessage,
}

// Mathematical views of the response types (strings as character sequences,
// vectors as sequences).

pub struct ServerErrorV {
    pub error_type: Seq<char>,
    pub error_message: Seq<char>,
}

pub enum ServerMessageV {
    CreateNewAccountResponse(Result<AccountCreatedResult, ServerErrorV>),
    GetAccountResponse(Result<Account, ServerErrorV>),
    GetAccountsResponse(Result<Seq<Account>, ServerErrorV>),
    GetTransactionsResponse(Result<Seq<Transaction>, ServerErrorV>),
    GetTransactionResponse(Result<Transaction, ServerErrorV>),
    CreateTransactionResponse(Result<TransactionReceipt, ServerErrorV>),
}

pub struct ServerMessagePacketV {
    pub v: i32,
    pub message_id: u128,
    pub message: ServerMessageV,
}

impl View for ServerError {
    type V = ServerErrorV;

    open spec fn view(&self) -> ServerErrorV {
        ServerErrorV { error_type: self.error_type@, error_message: self.error_message@ }
    }
}

impl View for ServerMessage {
    type V = ServerMessageV;

    open spec fn view(&self) -> ServerMessageV {
        match self {
            ServerMessage::CreateNewAccountResponse(r) => ServerMessageV::CreateNewAccountResponse(
                match r {
                    Ok(a) => Ok(*a),
                    Err(e) => Err(e@),
                },
            ),
            ServerMessage::GetAccountResponse(r) => ServerMessageV::GetAccountResponse(
                match r {
                    Ok(a) => Ok(*a),
                    Err(e) => Err(e@),
                },
            ),
            ServerMessage::GetAccountsResponse(r) => ServerMessageV::GetAccountsResponse(
                match r {
                    Ok(a) => Ok(a@),
                    Err(e) => Err(e@),
                },
            ),
            ServerMessage::GetTransactionsResponse(r) => ServerMessageV::GetTransactionsResponse(
                match r {
                    Ok(a) => Ok(a@),
                    Err(e) => Err(e@),
                },
            ),
            ServerMessage::GetTransactionResponse(r) => ServerMessageV::GetTransactionResponse(
                match r {
                    Ok(a) => Ok(*a),
                    Err(e) => Err(e@),
                },
            ),
            ServerMessage::CreateTransactionResponse(r) => ServerMessageV::CreateTransactionResponse(
                match r {
                    Ok(a) => Ok(*a),
                    Err(e) => Err(e@),
                },
            ),
        }
    }
}

impl View for ServerMessagePacket {
    type V = ServerMessagePacketV;

    open spec fn view(&self) -> ServerMessagePacketV {
        ServerMessagePacketV { v: self.v, message_id: self.message_id, message: self.message@ }
    }
}

// Packet construction ////////////////////////////////////////////////////

impl ClientMessage {
    /// Wraps the message in a versioned envelope with a fresh correlation id.
    pub fn to_packet(self) -> (r: ClientMessagePacket)
        ensures
            r.v == PROTOCOL_VERSION,
            r.message == self,
    {
        ClientMessagePacket::new(self)
    }
}

impl ClientMessagePacket {
    /// A fresh envelope: current protocol version, fresh correlation id.
    pub fn new(msg: ClientMessage) -> (r: ClientMessagePacket)
        ensures
            r.v == PROTOCOL_VERSION,
            r.message == msg,
    {
        ClientMessagePacket { v: PROTOCOL_VERSION, message_id: fresh_uuid(), message: msg }
    }
}

impl ServerMessage {
    /// Wraps the message in a versioned envelope with a fresh correlation id.
    pub fn to_packet(self) -> (r: ServerMessagePacket)
        ensures
            r.v == PROTOCOL_VERSION,
            r.message == self,
    {
        ServerMessagePacket::new(self)
    }

    /// The response envelope for a request: same correlation id, so the
    /// caller can match the reply to its request.
    pub fn as_resp_for(self, msg: &ClientMessagePacket) -> (r: ServerMessagePacket)
        ensures
            r.v == PROTOCOL_VERSION,
            r.message_id == msg.message_id,
            r.message == self,
    {
        ServerMessagePacket { v: PROTOCOL_VERSION, message_id: msg.message_id, message: self }
    }
}

impl ServerMessagePacket {
    /// A fresh envelope: current protocol version, fresh correlation id.
    pub fn new(msg: ServerMessage) -> (r: ServerMessagePacket)
        ensures
            r.v == PROTOCOL_VERSION,
            r.message == msg,
    {
        ServerMessagePacket { v: PROTOCOL_VERSION, message_id: fresh_uuid(), message: msg }
    }
}

// Domain errors as wire errors ///////////////////////////////////////////

impl AccountError {
    /// Stable name of the error variant.
    pub fn name(&self) -> (r: String)
        ensures
            r@ == spec_account_error_name(*self),
    {
        match self {
            AccountError::StoreError => "StoreError".to_owned(),
            AccountError::AccountAlreadyExists => "AccountAlreadyExists".to_owned(),
            AccountError::AccountDoesNotExist => "AccountDoesNotExist".to_owned(),
        }
    }
}

pub open spec fn spec_account_error_name(e: AccountError) -> Seq<char> {
    match e {
        AccountError::StoreError => "StoreError"@,
        AccountError::AccountAlreadyExists => "AccountAlreadyExists"@,
        AccountError::AccountDoesNotExist => "AccountDoesNotExist"@,
    }
}

impl TransactionError {
    /// Stable name of the error variant.
    pub fn name(&self) -> (r: String)
        ensures
            r@ == spec_transaction_error_name(*self),
    {
        match self {
            TransactionError::StoreError => "StoreError".to_owned(),
            TransactionError::AmountIsZero => "AmountIsZero".to_owned(),
            TransactionError::AmountIsNegative => "AmountIsNegative".to_owned(),
            TransactionError::FeeIsNegative => "FeeIsNegative".to_owned(),
            TransactionError::SenderAccountNotEnoughFunds => "SenderAccountNotEnoughFunds".to_owned(),
            TransactionError::SenderAccountDoesNotExist => "SenderAccountDoesNotExist".to_owned(),
            TransactionError::ReceiverAccountDoesNotExist => "ReceiverAccountDoesNotExist".to_owned(),
            TransactionError::SenderReceiverAreTheSame => "SenderReceiverAreTheSame".to_owned(),
            TransactionError::TransactionDoesNotExist => "TransactionDoesNotExist".to_owned(),
            TransactionError::PermissionDenied => "PermissionDenied".to_owned(),
        }
    }
}

pub open spec fn spec_transaction_error_name(e: TransactionError) -> Seq<char> {
    match e {
        TransactionError::StoreError => "StoreError"@,
        TransactionError::AmountIsZero => "AmountIsZero"@,
        TransactionError::AmountIsNegative => "AmountIsNegative"@,
        TransactionError::FeeIsNegative => "FeeIsNegative"@,
        TransactionError::SenderAccountNotEnoughFunds => "SenderAccountNotEnoughFunds"@,
        TransactionError::SenderAccountDoesNotExist => "SenderAccountDoesNotExist"@,
        TransactionError::ReceiverAccountDoesNotExist => "ReceiverAccountDoesNotExist"@,
        TransactionError::SenderReceiverAreTheSame => "SenderReceiverAreTheSame"@,
        TransactionError::TransactionDoesNotExist => "TransactionDoesNotExist"@,
        TransactionError::PermissionDenied => "PermissionDenied"@,
    }
}

impl ServerError {
    /// The wire error for an account-ledger failure: the taxonomy tag plus
    /// the variant name. The typed error is not reconstructed on the far
    /// side; the store-error case intentionally carries no internal detail.
    pub fn from_account_error(e: AccountError) -> (r: ServerError)
        ensures
            r@.error_type == "AccountError"@,
            r@.error_message == spec_account_error_name(e),
    {
        ServerError { error_type: "AccountError".to_owned(), error_message: e.name() }
    }

    /// The wire error for a transfer-engine failure, as above.
    pub fn from_transaction_error(e: TransactionError) -> (r: ServerError)
        ensures
            r@.error_type == "TransactionError"@,
            r@.error_message == spec_transaction_error_name(e),
    {
        ServerError { error_type: "TransactionError".to_owned(), error_message: e.name() }
    }
}

/// The wire error a protocol client reports for a failure on its own side
/// (no response, an unexpected response): tagged as a gateway-side error.
pub fn gateway_error(message: &str) -> (r: ServerError)
    ensures
        r@.error_type == "GatewayError"@,
        r@.error_message == message@,
{
    ServerError { error_type: "GatewayError".to_owned(), error_message: message.to_owned() }
}

// Trusted boundary between strings and their UTF-8 bytes /////////////////

/// Relies on String::from_utf8: it succeeds exactly on valid UTF-8 and then
/// returns the string whose characters decode from, and whose UTF-8 bytes
/// are exactly, the given bytes.
#[verifier::external_body]
pub(crate) fn utf8_to_string(v: Vec<u8>) -> (r: Option<String>)
    ensures
        r matches Some(s) ==> valid_utf8(v@) && s@ == decode_utf8(v@) && encode_utf8(s@) == v@,
        r is None ==> !valid_utf8(v@),
{
    match String::from_utf8(v) {
        Ok(s) => Some(s),
        Err(_) => None,
    }
}

} // verus!
