//! A minimal custodial ledger: per-account balances and an append-only record
//! of value transfers, exposed through a small versioned request/response
//! message protocol.

use vstd::prelude::*;

pub mod account;
pub mod auth;
pub mod client;
pub mod dispatch;
pub mod hex;
pub mod ledger;
pub mod message;
pub mod store;
pub mod sys;
pub mod wire;

verus! {

/// Well-known local address of the ledger service.
pub const CORE_SOCKET_PATH: &'static str = "/tmp/capycoin-core.sock";

/// Wire protocol version carried by every envelope.
pub const PROTOCOL_VERSION: i32 = 1;

} // verus!
