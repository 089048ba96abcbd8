//! The transaction ledger: validation and atomic execution of transfers,
//! and read-only queries over the append-only transaction table.

use vstd::prelude::*;

use crate::account::Account;
use crate::store::{
    store_accounts, store_in_txn, store_ledger, Store,
};
use crate::sys::{fresh_uuid, now_nanos};

verus! {

#[derive(Clone, Copy, Debug, PartialEq, Eq, Structural)]
pub struct Transaction {
    pub transaction_id: u128,
    pub timestamp: i64,
    pub sender_account_id: u128,
    pub receiver_account_id: u128,
    pub amount: i64,
    pub fee: i32,
}

/// Returned-only view of a committed transfer: the persisted transaction
/// plus the sender's post-transfer balance.
#[derive(Clone, Copy, Debug, PartialEq, Eq, Structural)]
pub struct TransactionReceipt {
    pub transaction_id: u128,
    pub timestamp: i64,
    pub sender_account_id: u128,
    pub receiver_account_id: u128,
    pub sender_account_funds: i64,
    pub fee: i32,
}

#[derive(Clone, Copy, Debug, PartialEq, Eq, Structural)]
pub enum TransactionError {
    StoreError,
    AmountIsZero,
    AmountIsNegative,
    FeeIsNegative,
    SenderAccountNotEnoughFunds,
    SenderAccountDoesNotExist,
    ReceiverAccountDoesNotExist,
    SenderReceiverAreTheSame,
    TransactionDoesNotExist,
    PermissionDenied,
}

impl Transaction {
    /// A transfer request: fresh transaction identity, current timestamp,
    /// and the given endpoints and amounts. Nothing is persisted; the store
    /// assigns the authoritative timestamp when the transfer commits.
    pub fn new(sender: u128, receiver: u128, amount: i64, fee: i32) -> (r: Transaction)
        ensures
            r.sender_account_id == sender,
            r.receiver_account_id == receiver,
            r.amount == amount,
            r.fee == fee,
    {
        Transaction {
            transaction_id: fresh_uuid(),
            timestamp: now_nanos(),
            sender_account_id: sender,
            receiver_account_id: receiver,
            amount,
            fee,
        }
    }
}

/// The requested transfer passes every store-independent validation.
pub open spec fn transfer_args_valid(t: Transaction) -> bool {
    t.amount > 0 && t.fee >= 0 && t.sender_account_id != t.receiver_account_id
}

/// What a transfer does. On success: the sender existed with funds at least
/// `amount + fee`, the receiver existed, the sender's balance drops by
/// exactly `amount + fee`, the receiver's rises by exactly `amount`, and
/// exactly one new ledger row referencing both accounts is appended, with a
/// store-assigned timestamp echoed in the receipt. On every failure both
/// tables are unchanged, and each domain error names exactly the condition
/// that forced it; `StoreError` covers database failures (and a receiver
/// balance that would leave the signed 64-bit range).
pub open spec fn save_transaction_post(
    pre_accounts: Map<u128, Account>,
    pre_ledger: Seq<Transaction>,
    post_accounts: Map<u128, Account>,
    post_ledger: Seq<Transaction>,
    t: Transaction,
    r: Result<TransactionReceipt, TransactionError>,
) -> bool {
    match r {
        Ok(receipt) => {
            let sender0 = pre_accounts[t.sender_account_id];
            let receiver0 = pre_accounts[t.receiver_account_id];
            let new_sender_funds = sender0.funds - t.amount - t.fee;
            let new_receiver_funds = receiver0.funds + t.amount;
            &&& transfer_args_valid(t)
            &&& pre_accounts.contains_key(t.sender_account_id)
            &&& pre_accounts.contains_key(t.receiver_account_id)
            &&& new_sender_funds >= 0
            &&& 0 <= new_receiver_funds <= i64::MAX
            &&& post_accounts == pre_accounts.insert(
                t.sender_account_id,
                (Account {
                    account_id: t.sender_account_id,
                    created: sender0.created,
                    funds: new_sender_funds as i64,
                }),
            ).insert(
                t.receiver_account_id,
                (Account {
                    account_id: t.receiver_account_id,
                    created: receiver0.created,
                    funds: new_receiver_funds as i64,
                }),
            )
            &&& post_ledger == pre_ledger.push(
                (Transaction {
                    transaction_id: t.transaction_id,
                    timestamp: receipt.timestamp,
                    sender_account_id: t.sender_account_id,
                    receiver_account_id: t.receiver_account_id,
                    amount: t.amount,
                    fee: t.fee,
                }),
            )
            &&& receipt.transaction_id == t.transaction_id
            &&& receipt.sender_account_id == t.sender_account_id
            &&& receipt.receiver_account_id == t.receiver_account_id
            &&& receipt.sender_account_funds == new_sender_funds
            &&& receipt.fee == t.fee
        },
        Err(e) => {
            &&& post_accounts == pre_accounts
            &&& post_ledger == pre_ledger
            &&& match e {
                TransactionError::AmountIsZero => t.amount == 0,
                TransactionError::AmountIsNegative => t.amount < 0,
                TransactionError::FeeIsNegative => t.amount > 0 && t.fee < 0,
                TransactionError::SenderReceiverAreTheSame => t.amount > 0 && t.fee >= 0
                    && t.sender_account_id == t.receiver_account_id,
                TransactionError::SenderAccountDoesNotExist => transfer_args_valid(t)
                    && !pre_accounts.contains_key(t.sender_account_id),
                TransactionError::SenderAccountNotEnoughFunds => transfer_args_valid(t)
                    && pre_accounts.contains_key(t.sender_account_id) && pre_accounts[
                    t.sender_account_id
                ].funds < t.amount + t.fee,
                TransactionError::ReceiverAccountDoesNotExist => transfer_args_valid(t)
                    && pre_accounts.contains_key(t.sender_account_id) && pre_accounts[
                    t.sender_account_id
                ].funds >= t.amount + t.fee && !pre_accounts.contains_key(
                    t.receiver_account_id,
                ),
                TransactionError::StoreError => transfer_args_valid(t),
                TransactionError::TransactionDoesNotExist => false,
                TransactionError::PermissionDenied => false,
            }
        },
    }
}

/// Validates and atomically executes a transfer: debit the sender, credit
/// the receiver, append the ledger row, all inside one exclusive store
/// transaction; any failure aborts the whole transaction and leaves the
/// store unchanged.
///
/// Fees are not implemented in this version: a positive fee is rejected at
/// the contract level rather than accepted silently.
pub fn save_transaction(store: &mut Store, transaction: &Transaction) -> (r: Result<
    TransactionReceipt,
    TransactionError,
>)
    requires
        transaction.fee <= 0,
        !store_in_txn(old(store)),
    ensures
        !store_in_txn(final(store)),
        save_transaction_post(
            store_accounts(old(store)),
            store_ledger(old(store)),
            store_accounts(final(store)),
            store_ledger(final(store)),
            *transaction,
            r,
        ),
{
    // Store-independent validation, in a fixed order.
    if transaction.amount == 0 {
        return Err(TransactionError::AmountIsZero);
    }
    if transaction.amount < 0 {
        return Err(TransactionError::AmountIsNegative);
    }
    if transaction.fee < 0 {
        return Err(TransactionError::FeeIsNegative);
    }
    if transaction.sender_account_id == transaction.receiver_account_id {
        return Err(TransactionError::SenderReceiverAreTheSame);
    }

    if let Err(_) = store.begin_exclusive() {
        return Err(TransactionError::StoreError);
    }

    // Debit the sender.
    let sender = match store.select_account(transaction.sender_account_id) {
        Ok(Some(a)) => a,
        Ok(None) => {
            store.rollback();
            return Err(TransactionError::SenderAccountDoesNotExist);
        },
        Err(_) => {
            store.rollback();
            return Err(TransactionError::StoreError);
        },
    };
    let deducted = transaction.amount + (transaction.fee as i64);
    if sender.funds < deducted {
        store.rollback();
        return Err(TransactionError::SenderAccountNotEnoughFunds);
    }
    let new_sender_funds = sender.funds - deducted;
    match store.update_account_funds(transaction.sender_account_id, new_sender_funds) {
        Ok(true) => (),
        Ok(false) => {
            // Defensively checked; the row was read under the same exclusive
            // transaction, so it cannot have vanished.
            store.rollback();
            return Err(TransactionError::SenderAccountDoesNotExist);
        },
        Err(_) => {
            store.rollback();
            return Err(TransactionError::StoreError);
        },
    }

    // Credit the receiver.
    let receiver = match store.select_account(transaction.receiver_account_id) {
        Ok(Some(a)) => a,
        Ok(None) => {
            store.rollback();
            return Err(TransactionError::ReceiverAccountDoesNotExist);
        },
        Err(_) => {
            store.rollback();
            return Err(TransactionError::StoreError);
        },
    };
    if receiver.funds > i64::MAX - transaction.amount || receiver.funds + transaction.amount < 0 {
        store.rollback();
        return Err(TransactionError::StoreError);
    }
    let new_receiver_funds = receiver.funds + transaction.amount;
    match store.update_account_funds(transaction.receiver_account_id, new_receiver_funds) {
        Ok(true) => (),
        Ok(false) => {
            store.rollback();
            return Err(TransactionError::ReceiverAccountDoesNotExist);
        },
        Err(_) => {
            store.rollback();
            return Err(TransactionError::StoreError);
        },
    }

    // Append the ledger row, with the store-assigned timestamp.
    let receipt_timestamp = now_nanos();
    let row = Transaction {
        transaction_id: transaction.transaction_id,
        timestamp: receipt_timestamp,
        sender_account_id: transaction.sender_account_id,
        receiver_account_id: transaction.receiver_account_id,
        amount: transaction.amount,
        fee: transaction.fee,
    };
    if let Err(_) = store.insert_transaction(&row) {
        store.rollback();
        return Err(TransactionError::StoreError);
    }

    match store.commit() {
        Ok(()) => Ok(
            TransactionReceipt {
                transaction_id: transaction.transaction_id,
                timestamp: receipt_timestamp,
                sender_account_id: transaction.sender_account_id,
                receiver_account_id: transaction.receiver_account_id,
                sender_account_funds: new_sender_funds,
                fee: transaction.fee,
            },
        ),
        Err(_) => Err(TransactionError::StoreError),
    }
}

/// Creates the (empty) transaction table when it does not exist yet; the
/// store contents are unchanged either way.
pub fn create_ledger_table(store: &mut Store) -> (r: Result<(), TransactionError>)
    requires
        !store_in_txn(old(store)),
    ensures
        !store_in_txn(final(store)),
        store_accounts(final(store)) == store_accounts(old(store)),
        store_ledger(final(store)) == store_ledger(old(store)),
        r is Err ==> r == Err::<(), TransactionError>(TransactionError::StoreError),
{
    match store.create_ledger_table_raw() {
        Ok(()) => Ok(()),
        Err(_) => Err(TransactionError::StoreError),
    }
}

/// The transaction involves the account, with a timestamp inside the
/// inclusive range.
pub open spec fn tx_matches(t: Transaction, account_id: u128, start: i64, end: i64) -> bool {
    &&& t.sender_account_id == account_id || t.receiver_account_id == account_id
    &&& start <= t.timestamp && t.timestamp <= end
}

/// The ledger rows involving the account inside the time range, in ledger
/// order.
pub open spec fn spec_matching_transactions(
    ledger: Seq<Transaction>,
    account_id: u128,
    start: i64,
    end: i64,
) -> Seq<Transaction> {
    ledger.filter(|t: Transaction| tx_matches(t, account_id, start, end))
}

proof fn lemma_matching_take_step(
    ledger: Seq<Transaction>,
    account_id: u128,
    start: i64,
    end: i64,
    i: int,
)
    requires
        0 <= i < ledger.len(),
    ensures
        spec_matching_transactions(ledger.take(i + 1), account_id, start, end) == (
        if tx_matches(ledger[i], account_id, start, end) {
            spec_matching_transactions(ledger.take(i), account_id, start, end).push(ledger[i])
        } else {
            spec_matching_transactions(ledger.take(i), account_id, start, end)
        }),
{
    reveal(Seq::filter);
    assert(ledger.take(i + 1).drop_last() =~= ledger.take(i));
    assert(ledger.take(i + 1).last() == ledger[i]);
}

/// Returns every transaction where the account is sender or receiver and the
/// store-assigned timestamp lies in the inclusive range, in ledger order.
/// Read-only.
pub fn get_transactions(store: &Store, account_id: u128, time_range: (i64, i64)) -> (r: Result<
    Vec<Transaction>,
    TransactionError,
>)
    ensures
        match r {
            Ok(v) => v@ == spec_matching_transactions(
                store_ledger(store),
                account_id,
                time_range.0,
                time_range.1,
            ),
            Err(TransactionError::StoreError) => true,
            Err(_) => false,
        },
{
    let start = time_range.0;
    let end = time_range.1;
    let all = match store.select_all_transactions() {
        Ok(v) => v,
        Err(_) => {
            return Err(TransactionError::StoreError);
        },
    };
    let ghost ledger = store_ledger(store);
    let n = all.len();
    let mut out: Vec<Transaction> = Vec::new();
    let mut i: usize = 0;
    while i < n
        invariant
            i <= n,
            n == all@.len(),
            all@ == ledger,
            out@ == spec_matching_transactions(ledger.take(i as int), account_id, start, end),
        decreases n - i,
    {
        let t = all[i];
        if (t.sender_account_id == account_id || t.receiver_account_id == account_id) && start
            <= t.timestamp && t.timestamp <= end {
            out.push(t);
        }
        proof {
            lemma_matching_take_step(ledger, account_id, start, end, i as int);
        }
        i = i + 1;
    }
    proof {
        assert(ledger.take(n as int) =~= ledger);
    }
    Ok(out)
}

/// First ledger row carrying the transaction id, when there is one. The id
/// is a primary key in the store, so at most one row carries it.
pub open spec fn spec_find_transaction(ledger: Seq<Transaction>, transaction_id: u128) -> Option<
    Transaction,
>
    decreases ledger.len(),
{
    if ledger.len() == 0 {
        None
    } else if ledger[0].transaction_id == transaction_id {
        Some(ledger[0])
    } else {
        spec_find_transaction(ledger.drop_first(), transaction_id)
    }
}

/// What the single-transaction query returns: the row when the account is a
/// party to it, `PermissionDenied` when it is not, `TransactionDoesNotExist`
/// when there is no such row; `StoreError` promises nothing.
pub open spec fn get_transaction_post(
    ledger: Seq<Transaction>,
    account_id: u128,
    transaction_id: u128,
    r: Result<Transaction, TransactionError>,
) -> bool {
    match r {
        Ok(t) => spec_find_transaction(ledger, transaction_id) == Some(t) && (t.sender_account_id
            == account_id || t.receiver_account_id == account_id),
        Err(TransactionError::TransactionDoesNotExist) => spec_find_transaction(
            ledger,
            transaction_id,
        ) is None,
        Err(TransactionError::PermissionDenied) => {
            let f = spec_find_transaction(ledger, transaction_id);
            &&& f is Some
            &&& f->Some_0.sender_account_id != account_id
            &&& f->Some_0.receiver_account_id != account_id
        },
        Err(TransactionError::StoreError) => true,
        Err(_) => false,
    }
}

/// Fetches one transaction by id, only for an account that is a party to it
/// (authorization is local to this query). Read-only.
pub fn get_transaction(store: &Store, account_id: u128, transaction_id: u128) -> (r: Result<
    Transaction,
    TransactionError,
>)
    ensures
        get_transaction_post(store_ledger(store), account_id, transaction_id, r),
{
    let all = match store.select_all_transactions() {
        Ok(v) => v,
        Err(_) => {
            return Err(TransactionError::StoreError);
        },
    };
    let ghost ledger = store_ledger(store);
    proof {
        assert(ledger.skip(0) =~= ledger);
    }
    let n = all.len();
    let mut i: usize = 0;
    while i < n
        invariant
            i <= n,
            n == all@.len(),
            all@ == ledger,
            ledger == store_ledger(store),
            spec_find_transaction(ledger, transaction_id) == spec_find_transaction(
                ledger.skip(i as int),
                transaction_id,
            ),
        decreases n - i,
    {
        let t = all[i];
        proof {
            let sk = ledger.skip(i as int);
            assert(sk.len() == n - i);
            assert(sk[0] == ledger[i as int]);
            assert(sk.drop_first() =~= ledger.skip(i as int + 1));
            if ledger[i as int].transaction_id == transaction_id {
                assert(spec_find_transaction(sk, transaction_id) == Some(ledger[i as int]));
            }
        }
        if t.transaction_id == transaction_id {
            if t.sender_account_id == account_id || t.receiver_account_id == account_id {
                return Ok(t);
            } else {
                return Err(TransactionError::PermissionDenied);
            }
        }
        i = i + 1;
    }
    proof {
        assert(ledger.skip(n as int) =~= Seq::<Transaction>::empty());
    }
    Err(TransactionError::TransactionDoesNotExist)
}

/// Fetching a transaction is repeatable: two results for the same store
/// state agree unless one of them is a store failure.
pub proof fn lemma_get_transaction_repeatable(
    ledger: Seq<Transaction>,
    account_id: u128,
    transaction_id: u128,
    r1: Result<Transaction, TransactionError>,
    r2: Result<Transaction, TransactionError>,
)
    requires
        get_transaction_post(ledger, account_id, transaction_id, r1),
        get_transaction_post(ledger, account_id, transaction_id, r2),
        r1 != Err::<Transaction, TransactionError>(TransactionError::StoreError),
        r2 != Err::<Transaction, TransactionError>(TransactionError::StoreError),
    ensures
        r1 == r2,
{
}

/// A committed transfer moves exactly the transferred amount: the sender's
/// balance drops by `amount + fee`, the receiver's rises by `amount`, every
/// other account is untouched, and exactly one new ledger row referencing
/// both accounts with that amount is appended.
pub proof fn lemma_transfer_moves_funds(
    pre_accounts: Map<u128, Account>,
    pre_ledger: Seq<Transaction>,
    post_accounts: Map<u128, Account>,
    post_ledger: Seq<Transaction>,
    t: Transaction,
    receipt: TransactionReceipt,
)
    requires
        save_transaction_post(pre_accounts, pre_ledger, post_accounts, post_ledger, t, Ok(receipt)),
    ensures
        post_accounts.contains_key(t.sender_account_id),
        post_accounts.contains_key(t.receiver_account_id),
        post_accounts[t.sender_account_id].funds == pre_accounts[t.sender_account_id].funds
            - t.amount - t.fee,
        post_accounts[t.receiver_account_id].funds == pre_accounts[t.receiver_account_id].funds
            + t.amount,
        post_accounts[t.sender_account_id].funds >= 0,
        forall|id: u128|
            id != t.sender_account_id && id != t.receiver_account_id ==> (
            #[trigger] post_accounts.contains_key(id) == pre_accounts.contains_key(id) && (
            pre_accounts.contains_key(id) ==> post_accounts[id] == pre_accounts[id])),
        post_ledger.len() == pre_ledger.len() + 1,
        post_ledger.take(pre_ledger.len() as int) == pre_ledger,
        post_ledger.last().sender_account_id == t.sender_account_id,
        post_ledger.last().receiver_account_id == t.receiver_account_id,
        post_ledger.last().amount == t.amount,
        post_ledger.last().fee == t.fee,
        post_ledger.last().transaction_id == t.transaction_id,
{
    assert(post_ledger.take(pre_ledger.len() as int) =~= pre_ledger);
}

/// With a sender short of funds, the store is left unchanged — balances and
/// ledger alike — and the reported error is `SenderAccountNotEnoughFunds`
/// (a database failure being the only other possible outcome).
pub proof fn lemma_insufficient_funds_rejected(
    pre_accounts: Map<u128, Account>,
    pre_ledger: Seq<Transaction>,
    post_accounts: Map<u128, Account>,
    post_ledger: Seq<Transaction>,
    t: Transaction,
    r: Result<TransactionReceipt, TransactionError>,
)
    requires
        save_transaction_post(pre_accounts, pre_ledger, post_accounts, post_ledger, t, r),
        transfer_args_valid(t),
        pre_accounts.contains_key(t.sender_account_id),
        pre_accounts[t.sender_account_id].funds < t.amount + t.fee,
    ensures
        post_accounts == pre_accounts,
        post_ledger == pre_ledger,
        r == Err::<TransactionReceipt, TransactionError>(
            TransactionError::SenderAccountNotEnoughFunds,
        ) || r == Err::<TransactionReceipt, TransactionError>(TransactionError::StoreError),
{
}

/// The balance invariant is preserved: when every account's funds are
/// non-negative before a transfer, they are non-negative after it, whatever
/// the outcome.
pub proof fn lemma_transfer_preserves_nonnegative_funds(
    pre_accounts: Map<u128, Account>,
    pre_ledger: Seq<Transaction>,
    post_accounts: Map<u128, Account>,
    post_ledger: Seq<Transaction>,
    t: Transaction,
    r: Result<TransactionReceipt, TransactionError>,
)
    requires
        save_transaction_post(pre_accounts, pre_ledger, post_accounts, post_ledger, t, r),
        forall|id: u128| pre_accounts.contains_key(id) ==> #[trigger] pre_accounts[id].funds >= 0,
    ensures
        forall|id: u128| post_accounts.contains_key(id) ==> #[trigger] post_accounts[id].funds >= 0,
{
}

/// The ledger is append-only: a transfer never rewrites or removes an
/// existing row; it appends at most one.
pub proof fn lemma_ledger_append_only(
    pre_accounts: Map<u128, Account>,
    pre_ledger: Seq<Transaction>,
    post_accounts: Map<u128, Account>,
    post_ledger: Seq<Transaction>,
    t: Transaction,
    r: Result<TransactionReceipt, TransactionError>,
)
    requires
        save_transaction_post(pre_accounts, pre_ledger, post_accounts, post_ledger, t, r),
    ensures
        pre_ledger.len() <= post_ledger.len() <= pre_ledger.len() + 1,
        post_ledger.take(pre_ledger.len() as int) == pre_ledger,
{
    assert(post_ledger.take(pre_ledger.len() as int) =~= pre_ledger);
}

/// Store-independent validation is decisive: a zero amount always fails with
/// `AmountIsZero`, a negative amount with `AmountIsNegative`, a transfer to
/// the sending account with `SenderReceiverAreTheSame` — whatever the
/// balances — and in each case the store is unchanged.
pub proof fn lemma_validation_decides(
    pre_accounts: Map<u128, Account>,
    pre_ledger: Seq<Transaction>,
    post_accounts: Map<u128, Account>,
    post_ledger: Seq<Transaction>,
    t: Transaction,
    r: Result<TransactionReceipt, TransactionError>,
)
    requires
        save_transaction_post(pre_accounts, pre_ledger, post_accounts, post_ledger, t, r),
    ensures
        t.amount == 0 ==> r == Err::<TransactionReceipt, TransactionError>(
            TransactionError::AmountIsZero,
        ) && post_accounts == pre_accounts && post_ledger == pre_ledger,
        t.amount < 0 ==> r == Err::<TransactionReceipt, TransactionError>(
            TransactionError::AmountIsNegative,
        ) && post_accounts == pre_accounts && post_ledger == pre_ledger,
        t.amount > 0 && t.fee >= 0 && t.sender_account_id == t.receiver_account_id ==> r == Err::<
            TransactionReceipt,
            TransactionError,
        >(TransactionError::SenderReceiverAreTheSame) && post_accounts == pre_accounts
            && post_ledger == pre_ledger,
{
}

} // verus!
