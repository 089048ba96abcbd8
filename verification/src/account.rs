//! Accounts: balance-holding entities identified by a 128-bit id, with a
//! creation timestamp (nanoseconds since the Unix epoch) and a non-negative
//! balance in minor units.

use vstd::prelude::*;

use crate::store::{
    store_accounts, store_in_txn, store_ledger, Store, StoreFailure,
};
use crate::sys::{fresh_uuid, now_nanos};

verus! {

#[derive(Clone, Copy, Debug, PartialEq, Eq, Structural)]
pub struct Account {
    pub account_id: u128,
    pub created: i64,
    pub funds: i64,
}

#[derive(Clone, Copy, Debug, PartialEq, Eq, Structural)]
pub struct AccountCreatedResult {
    pub account_id: u128,
    pub timestamp: i64,
}

#[derive(Clone, Copy, Debug, PartialEq, Eq, Structural)]
pub enum AccountError {
    StoreError,
    AccountAlreadyExists,
    AccountDoesNotExist,
}

/// Identity of the well-known seed account created at first bootstrap.
pub const SEED_ACCOUNT_ID: u128 = 0x4e9b616a_f11e_48b6_8c2f_9534d482e48e;

/// Creation timestamp of the seed account: 2000-01-01 00:00:00 UTC.
pub const SEED_ACCOUNT_CREATED: i64 = 946_684_800_000_000_000;

/// Initial balance of the seed account.
pub const SEED_ACCOUNT_FUNDS: i64 = 100_000;

impl Account {
    /// A fresh account: new identity, current timestamp, zero funds.
    /// Nothing is persisted until the account is saved.
    pub fn new() -> (r: Account)
        ensures
            r.funds == 0,
    {
        let account_id = fresh_uuid();
        Account { account_id, created: now_nanos(), funds: 0 }
    }
}

pub fn seed_account_id() -> (r: u128)
    ensures
        r == SEED_ACCOUNT_ID,
{
    SEED_ACCOUNT_ID
}

pub fn create_seed_account() -> (r: Account)
    ensures
        r == (Account {
            account_id: SEED_ACCOUNT_ID,
            created: SEED_ACCOUNT_CREATED,
            funds: SEED_ACCOUNT_FUNDS,
        }),
{
    Account {
        account_id: SEED_ACCOUNT_ID,
        created: SEED_ACCOUNT_CREATED,
        funds: SEED_ACCOUNT_FUNDS,
    }
}

/// Creates the (empty) accounts table when it does not exist yet; the store
/// contents are unchanged either way.
pub fn create_accounts_table(store: &mut Store) -> (r: Result<(), AccountError>)
    requires
        !store_in_txn(old(store)),
    ensures
        !store_in_txn(final(store)),
        store_accounts(final(store)) == store_accounts(old(store)),
        store_ledger(final(store)) == store_ledger(old(store)),
        r is Err ==> r == Err::<(), AccountError>(AccountError::StoreError),
{
    match store.create_accounts_table_raw() {
        Ok(()) => Ok(()),
        Err(_) => Err(AccountError::StoreError),
    }
}

/// What saving an account does to the account table: on success the account
/// is added under its id, which was free before; on `AccountAlreadyExists`
/// the id was taken; on `StoreError` nothing is promised found, and in every
/// failure case the table is unchanged.
pub open spec fn save_account_post(
    pre: Map<u128, Account>,
    post: Map<u128, Account>,
    account: Account,
    r: Result<AccountCreatedResult, AccountError>,
) -> bool {
    match r {
        Ok(created) => {
            &&& !pre.contains_key(account.account_id)
            &&& post == pre.insert(account.account_id, account)
            &&& created.account_id == account.account_id
        },
        Err(AccountError::AccountAlreadyExists) => pre.contains_key(account.account_id) && post
            == pre,
        Err(AccountError::StoreError) => post == pre,
        Err(AccountError::AccountDoesNotExist) => false,
    }
}

/// Persists a new account. Fails with `AccountAlreadyExists` when the
/// identity is already taken; any other store failure is surfaced as
/// `StoreError`. Failure leaves the store unchanged.
pub fn save_account(store: &mut Store, account: &Account) -> (r: Result<
    AccountCreatedResult,
    AccountError,
>)
    requires
        account.funds >= 0,
        !store_in_txn(old(store)),
    ensures
        !store_in_txn(final(store)),
        store_ledger(final(store)) == store_ledger(old(store)),
        save_account_post(
            store_accounts(old(store)),
            store_accounts(final(store)),
            *account,
            r,
        ),
{
    match store.insert_account(account) {
        Ok(()) => Ok(
            AccountCreatedResult { account_id: account.account_id, timestamp: now_nanos() },
        ),
        Err(StoreFailure::Duplicate) => Err(AccountError::AccountAlreadyExists),
        Err(StoreFailure::Other) => Err(AccountError::StoreError),
    }
}

/// What loading an account returns: the row under the id when there is one,
/// `AccountDoesNotExist` when there is none; `StoreError` promises nothing.
pub open spec fn load_account_post(
    accounts: Map<u128, Account>,
    account_id: u128,
    r: Result<Account, AccountError>,
) -> bool {
    match r {
        Ok(a) => accounts.contains_key(account_id) && a == accounts[account_id],
        Err(AccountError::AccountDoesNotExist) => !accounts.contains_key(account_id),
        Err(AccountError::StoreError) => true,
        Err(AccountError::AccountAlreadyExists) => false,
    }
}

/// Loads one account by id. Read-only.
pub fn load_account(store: &Store, account_id: u128) -> (r: Result<Account, AccountError>)
    ensures
        load_account_post(store_accounts(store), account_id, r),
{
    match store.select_account(account_id) {
        Ok(Some(a)) => Ok(a),
        Ok(None) => Err(AccountError::AccountDoesNotExist),
        Err(_) => Err(AccountError::StoreError),
    }
}

/// Loading an account is repeatable: two results for the same store state
/// agree unless one of them is a store failure.
pub proof fn lemma_load_account_repeatable(
    accounts: Map<u128, Account>,
    account_id: u128,
    r1: Result<Account, AccountError>,
    r2: Result<Account, AccountError>,
)
    requires
        load_account_post(accounts, account_id, r1),
        load_account_post(accounts, account_id, r2),
        r1 != Err::<Account, AccountError>(AccountError::StoreError),
        r2 != Err::<Account, AccountError>(AccountError::StoreError),
    ensures
        r1 == r2,
{
}

/// The listing is a full, duplicate-free enumeration of the account table,
/// in ascending order of account id.
pub open spec fn get_accounts_post(accounts: Map<u128, Account>, v: Seq<Account>) -> bool {
    &&& accounts.dom().finite()
    &&& v.len() == accounts.dom().len()
    &&& forall|i: int|
        0 <= i < v.len() ==> accounts.contains_key(#[trigger] v[i].account_id) && accounts[v[
            i
        ].account_id] == v[i]
    &&& forall|id: u128|
        accounts.dom().contains(id) ==> exists|i: int|
            0 <= i < v.len() && #[trigger] v[i].account_id == id
    &&& forall|i: int, j: int| 0 <= i < j < v.len() ==> v[i].account_id < v[j].account_id
}

/// Lists every account, in ascending order of account id; a full,
/// duplicate-free enumeration of the account table. Read-only.
pub fn get_accounts(store: &Store) -> (r: Result<Vec<Account>, AccountError>)
    ensures
        match r {
            Ok(v) => get_accounts_post(store_accounts(store), v@),
            Err(AccountError::StoreError) => true,
            Err(_) => false,
        },
{
    match store.select_all_accounts() {
        Ok(v) => Ok(v),
        Err(_) => Err(AccountError::StoreError),
    }
}

} // verus!
