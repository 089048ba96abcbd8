//! The persistent store: an embedded relational database holding the account
//! table and the transaction ledger.
//!
//! The database is reached only through the trusted wrappers below. Their
//! contracts describe each statement's effect on two abstract table models
//! (`store_accounts`, `store_ledger`), on the snapshot taken by the last
//! `BEGIN` (`store_saved_accounts`, `store_saved_ledger`), and on whether a
//! transaction is open (`store_in_txn`). Account and transaction ids are
//! persisted as 16-byte big-endian blobs, timestamps and amounts as integers.

use vstd::prelude::*;

use crate::account::Account;
use crate::ledger::Transaction;

verus! {

#[verifier::external_type_specification]
#[verifier::external_body]
pub struct ExConnection(rusqlite::Connection);

/// Exclusive handle on the database. All access goes through the methods
/// below; their contracts are stated over the model functions that follow.
pub struct Store {
    conn: rusqlite::Connection,
}

/// How a store operation failed: a uniqueness-constraint violation, or any
/// other database failure.
#[derive(Clone, Copy, Debug, PartialEq, Eq, Structural)]
pub enum StoreFailure {
    Duplicate,
    Other,
}

/// Contents of the account table, keyed by the account id column; empty when
/// the table does not exist.
pub uninterp spec fn store_accounts(s: &Store) -> Map<u128, Account>;

/// Contents of the transaction table in insertion (rowid) order; empty when
/// the table does not exist.
pub uninterp spec fn store_ledger(s: &Store) -> Seq<Transaction>;

/// Account table contents as of the most recent `BEGIN`.
pub uninterp spec fn store_saved_accounts(s: &Store) -> Map<u128, Account>;

/// Transaction table contents as of the most recent `BEGIN`.
pub uninterp spec fn store_saved_ledger(s: &Store) -> Seq<Transaction>;

/// Whether an explicit transaction is open on this connection.
pub uninterp spec fn store_in_txn(s: &Store) -> bool;

/// Both tables read the same in `post` as in `pre`.
pub open spec fn store_tables_unchanged(pre: &Store, post: &Store) -> bool {
    &&& store_accounts(post) == store_accounts(pre)
    &&& store_ledger(post) == store_ledger(pre)
}

/// The snapshot of the most recent `BEGIN` is the same in `post` as in `pre`.
pub open spec fn store_snapshot_unchanged(pre: &Store, post: &Store) -> bool {
    &&& store_saved_accounts(post) == store_saved_accounts(pre)
    &&& store_saved_ledger(post) == store_saved_ledger(pre)
}

/// Both tables in `post` read as they did at `pre`'s most recent `BEGIN`.
pub open spec fn store_reverted(pre: &Store, post: &Store) -> bool {
    &&& store_accounts(post) == store_saved_accounts(pre)
    &&& store_ledger(post) == store_saved_ledger(pre)
}

/// State after a failed statement inside a transaction: either the statement
/// alone was rolled back and the transaction is still open, or the whole
/// transaction was rolled back (as SQLite does for some failures).
pub open spec fn store_stmt_failed(pre: &Store, post: &Store) -> bool {
    ||| (store_in_txn(post) && store_tables_unchanged(pre, post))
    ||| (!store_in_txn(post) && store_reverted(pre, post))
}

impl Store {
    /// Relies on rusqlite::Connection::open_in_memory: a fresh in-memory
    /// database holds no tables (so both models are empty) and no open
    /// transaction.
    #[verifier::external_body]
    pub fn open_in_memory() -> (r: Result<Store, StoreFailure>)
        ensures
            match r {
                Ok(s) => {
                    &&& store_accounts(&s) == Map::<u128, Account>::empty()
                    &&& store_ledger(&s) == Seq::<Transaction>::empty()
                    &&& !store_in_txn(&s)
                },
                Err(_) => true,
            },
    {
        match rusqlite::Connection::open_in_memory() {
            Ok(conn) => Ok(Store { conn }),
            Err(_) => Err(StoreFailure::Other),
        }
    }

    /// Relies on rusqlite::Connection::open: opens (creating it if absent)
    /// the database file at `path`, with no open transaction. The table
    /// contents are whatever the file holds.
    #[verifier::external_body]
    pub fn open(path: &str) -> (r: Result<Store, StoreFailure>)
        ensures
            match r {
                Ok(s) => !store_in_txn(&s),
                Err(_) => true,
            },
    {
        match rusqlite::Connection::open(path) {
            Ok(conn) => Ok(Store { conn }),
            Err(_) => Err(StoreFailure::Other),
        }
    }

    /// Relies on rusqlite::Connection::execute running one
    /// `CREATE TABLE IF NOT EXISTS` statement: creating an (empty) accounts
    /// table, or leaving an existing one alone, changes no row of either
    /// table and opens no transaction.
    #[verifier::external_body]
    pub(crate) fn create_accounts_table_raw(&mut self) -> (r: Result<(), StoreFailure>)
        requires
            !store_in_txn(old(self)),
        ensures
            !store_in_txn(final(self)),
            store_tables_unchanged(old(self), final(self)),
    {
        let sql = "CREATE TABLE IF NOT EXISTS accounts (
            account_id  BLOB     PRIMARY KEY  CHECK(length(account_id) = 16),
            created     INTEGER  NOT NULL,
            funds       INTEGER  NOT NULL     CHECK(funds >= 0)
        )";
        match self.conn.execute(sql, []) {
            Ok(_) => Ok(()),
            Err(_) => Err(StoreFailure::Other),
        }
    }

    /// Relies on rusqlite::Connection::execute running one
    /// `CREATE TABLE IF NOT EXISTS` statement for the transaction table, as
    /// for the accounts table above.
    #[verifier::external_body]
    pub(crate) fn create_ledger_table_raw(&mut self) -> (r: Result<(), StoreFailure>)
        requires
            !store_in_txn(old(self)),
        ensures
            !store_in_txn(final(self)),
            store_tables_unchanged(old(self), final(self)),
    {
        let sql = "CREATE TABLE IF NOT EXISTS transactions (
            transaction_id       BLOB     PRIMARY KEY  CHECK(length(transaction_id) = 16),
            timestamp            INTEGER  NOT NULL,
            sender_account_id    BLOB     NOT NULL     CHECK(length(sender_account_id) = 16),
            receiver_account_id  BLOB     NOT NULL     CHECK(length(receiver_account_id) = 16),
            amount               INTEGER  NOT NULL     CHECK(amount > 0),
            fee                  INTEGER  NOT NULL     CHECK(fee >= 0)
        )";
        match self.conn.execute(sql, []) {
            Ok(_) => Ok(()),
            Err(_) => Err(StoreFailure::Other),
        }
    }

    /// Relies on rusqlite::Connection::execute running one autocommitted
    /// `INSERT` into the accounts table. The only constraint a row with
    /// non-negative funds and a 16-byte id can violate is the primary key,
    /// so `Duplicate` means the id was taken; a failed insert changes
    /// nothing.
    #[verifier::external_body]
    pub(crate) fn insert_account(&mut self, account: &Account) -> (r: Result<(), StoreFailure>)
        requires
            account.funds >= 0,
            !store_in_txn(old(self)),
        ensures
            !store_in_txn(final(self)),
            store_ledger(final(self)) == store_ledger(old(self)),
            match r {
                Ok(()) => !store_accounts(old(self)).contains_key(account.account_id)
                    && store_accounts(final(self)) == store_accounts(old(self)).insert(
                    account.account_id,
                    *account,
                ),
                Err(StoreFailure::Duplicate) => store_accounts(old(self)).contains_key(
                    account.account_id,
                ) && store_accounts(final(self)) == store_accounts(old(self)),
                Err(StoreFailure::Other) => store_accounts(final(self)) == store_accounts(
                    old(self),
                ),
            },
    {
        let id = account.account_id.to_be_bytes();
        let sql = "INSERT INTO accounts (account_id, created, funds) VALUES (?1, ?2, ?3)";
        match self.conn.execute(sql, (&id[..], account.created, account.funds)) {
            Ok(_) => Ok(()),
            Err(rusqlite::Error::SqliteFailure(e, _))
                if e.code == rusqlite::ErrorCode::ConstraintViolation
                => Err(StoreFailure::Duplicate),
            Err(_) => Err(StoreFailure::Other),
        }
    }

    /// Relies on rusqlite::Connection::query_row running one `SELECT` by
    /// primary key: it returns the row stored under the id when there is
    /// one, `QueryReturnedNoRows` when there is none, and reads do not
    /// change the database.
    #[verifier::external_body]
    pub(crate) fn select_account(&self, account_id: u128) -> (r: Result<Option<Account>, StoreFailure>)
        ensures
            match r {
                Ok(Some(a)) => store_accounts(self).contains_key(account_id) && a
                    == store_accounts(self)[account_id] && a.account_id == account_id,
                Ok(None) => !store_accounts(self).contains_key(account_id),
                Err(_) => true,
            },
    {
        let id = account_id.to_be_bytes();
        let sql = "SELECT created, funds FROM accounts WHERE account_id = ?1";
        let r = self.conn.query_row(sql, (&id[..],), |row| {
            Ok(Account { account_id, created: row.get(0)?, funds: row.get(1)? })
        });
        match r {
            Ok(a) => Ok(Some(a)),
            Err(rusqlite::Error::QueryReturnedNoRows) => Ok(None),
            Err(_) => Err(StoreFailure::Other),
        }
    }

    /// Relies on rusqlite::Statement::query_map running one `SELECT` over the
    /// whole accounts table with `ORDER BY account_id`: every row is returned
    /// exactly once, ordered by the 16-byte big-endian id column (memcmp
    /// order on the blobs, which is numeric order on the ids).
    #[verifier::external_body]
    pub(crate) fn select_all_accounts(&self) -> (r: Result<Vec<Account>, StoreFailure>)
        ensures
            match r {
                Ok(v) => {
                    &&& store_accounts(self).dom().finite()
                    &&& v@.len() == store_accounts(self).dom().len()
                    &&& forall|i: int|
                        0 <= i < v@.len() ==> store_accounts(self).contains_key(
                            #[trigger] v@[i].account_id,
                        ) && store_accounts(self)[v@[i].account_id] == v@[i]
                    &&& forall|id: u128|
                        store_accounts(self).dom().contains(id) ==> exists|i: int|
                            0 <= i < v@.len() && #[trigger] v@[i].account_id == id
                    &&& forall|i: int, j: int|
                        0 <= i < j < v@.len() ==> v@[i].account_id < v@[j].account_id
                },
                Err(_) => true,
            },
    {
        let sql = "SELECT account_id, created, funds FROM accounts ORDER BY account_id";
        let r = self.conn.prepare(sql).and_then(|mut st| {
            st.query_map([], |row| Ok(Account {
                account_id: u128::from_be_bytes(row.get(0)?),
                created: row.get(1)?,
                funds: row.get(2)?,
            }))?.collect()
        });
        r.map_err(|_| StoreFailure::Other)
    }

    /// Relies on rusqlite::Connection::execute running one `UPDATE` of the
    /// funds column by primary key inside the open transaction: the affected
    /// row count says whether the id was present, and a failed statement
    /// either leaves everything as it was or (for failures where SQLite
    /// rolls back) ends the transaction and restores the snapshot.
    #[verifier::external_body]
    pub(crate) fn update_account_funds(&mut self, account_id: u128, funds: i64) -> (r: Result<
        bool,
        StoreFailure,
    >)
        requires
            store_in_txn(old(self)),
            funds >= 0,
        ensures
            store_snapshot_unchanged(old(self), final(self)),
            match r {
                Ok(true) => {
                    &&& store_in_txn(final(self))
                    &&& store_accounts(old(self)).contains_key(account_id)
                    &&& store_accounts(final(self)) == store_accounts(old(self)).insert(
                        account_id,
                        (Account {
                            account_id,
                            created: store_accounts(old(self))[account_id].created,
                            funds,
                        }),
                    )
                    &&& store_ledger(final(self)) == store_ledger(old(self))
                },
                Ok(false) => store_in_txn(final(self)) && !store_accounts(old(self)).contains_key(
                    account_id,
                ) && store_tables_unchanged(old(self), final(self)),
                Err(_) => store_stmt_failed(old(self), final(self)),
            },
    {
        let id = account_id.to_be_bytes();
        let sql = "UPDATE accounts SET funds = ?1 WHERE account_id = ?2";
        match self.conn.execute(sql, (funds, &id[..])) {
            Ok(0) => Ok(false),
            Ok(_) => Ok(true),
            Err(_) => Err(StoreFailure::Other),
        }
    }

    /// Relies on rusqlite::Connection::execute running one `INSERT` into the
    /// transaction table inside the open transaction: on success exactly the
    /// given row is appended (at the highest rowid), and a failed statement
    /// behaves as for `update_account_funds`.
    #[verifier::external_body]
    pub(crate) fn insert_transaction(&mut self, t: &Transaction) -> (r: Result<(), StoreFailure>)
        requires
            store_in_txn(old(self)),
            t.amount > 0,
            t.fee >= 0,
        ensures
            store_snapshot_unchanged(old(self), final(self)),
            match r {
                Ok(()) => {
                    &&& store_in_txn(final(self))
                    &&& store_ledger(final(self)) == store_ledger(old(self)).push(*t)
                    &&& store_accounts(final(self)) == store_accounts(old(self))
                },
                Err(_) => store_stmt_failed(old(self), final(self)),
            },
    {
        let tid = t.transaction_id.to_be_bytes();
        let sid = t.sender_account_id.to_be_bytes();
        let rid = t.receiver_account_id.to_be_bytes();
        let sql = "INSERT INTO transactions
            (transaction_id, timestamp, sender_account_id, receiver_account_id, amount, fee)
            VALUES (?1, ?2, ?3, ?4, ?5, ?6)";
        let params = (&tid[..], t.timestamp, &sid[..], &rid[..], t.amount, t.fee);
        match self.conn.execute(sql, params) {
            Ok(_) => Ok(()),
            Err(_) => Err(StoreFailure::Other),
        }
    }

    /// Relies on rusqlite::Statement::query_map running one `SELECT` over the
    /// whole transaction table with `ORDER BY rowid`: every row exactly once,
    /// in insertion order.
    #[verifier::external_body]
    pub(crate) fn select_all_transactions(&self) -> (r: Result<Vec<Transaction>, StoreFailure>)
        ensures
            match r {
                Ok(v) => v@ == store_ledger(self),
                Err(_) => true,
            },
    {
        let sql = "SELECT transaction_id, timestamp, sender_account_id, receiver_account_id,
            amount, fee FROM transactions ORDER BY rowid";
        let r = self.conn.prepare(sql).and_then(|mut st| {
            st.query_map([], |row| Ok(Transaction {
                transaction_id: u128::from_be_bytes(row.get(0)?),
                timestamp: row.get(1)?,
                sender_account_id: u128::from_be_bytes(row.get(2)?),
                receiver_account_id: u128::from_be_bytes(row.get(3)?),
                amount: row.get(4)?,
                fee: row.get(5)?,
            }))?.collect()
        });
        r.map_err(|_| StoreFailure::Other)
    }

    /// Relies on rusqlite::Connection::execute_batch running `BEGIN
    /// EXCLUSIVE`: on success a transaction is open, the tables are
    /// unchanged, and the snapshot is what the tables read now; a failed
    /// `BEGIN` opens no transaction and changes nothing.
    #[verifier::external_body]
    pub(crate) fn begin_exclusive(&mut self) -> (r: Result<(), StoreFailure>)
        requires
            !store_in_txn(old(self)),
        ensures
            store_tables_unchanged(old(self), final(self)),
            match r {
                Ok(()) => {
                    &&& store_in_txn(final(self))
                    &&& store_saved_accounts(final(self)) == store_accounts(old(self))
                    &&& store_saved_ledger(final(self)) == store_ledger(old(self))
                },
                Err(_) => !store_in_txn(final(self)),
            },
    {
        match self.conn.execute_batch("BEGIN EXCLUSIVE") {
            Ok(()) => Ok(()),
            Err(_) => Err(StoreFailure::Other),
        }
    }

    /// Relies on rusqlite::Connection::execute_batch running `COMMIT`: on
    /// success the transaction is closed with the tables as they read now.
    /// With the exclusive lock already held, `SQLITE_BUSY` cannot occur, and
    /// on every other commit failure SQLite rolls the transaction back, so
    /// failure closes the transaction and restores the snapshot.
    #[verifier::external_body]
    pub(crate) fn commit(&mut self) -> (r: Result<(), StoreFailure>)
        requires
            store_in_txn(old(self)),
        ensures
            !store_in_txn(final(self)),
            match r {
                Ok(()) => store_tables_unchanged(old(self), final(self)),
                Err(_) => store_reverted(old(self), final(self)),
            },
    {
        match self.conn.execute_batch("COMMIT") {
            Ok(()) => Ok(()),
            Err(_) => Err(StoreFailure::Other),
        }
    }

    /// Relies on rusqlite::Connection::execute_batch running `ROLLBACK`:
    /// with a transaction open it closes it and restores the snapshot; with
    /// none open (a failed statement may already have rolled back) the
    /// statement fails and nothing changes. The error is discarded.
    #[verifier::external_body]
    pub(crate) fn rollback(&mut self)
        ensures
            !store_in_txn(final(self)),
            store_in_txn(old(self)) ==> store_reverted(old(self), final(self)),
            !store_in_txn(old(self)) ==> store_tables_unchanged(old(self), final(self)),
    {
        let _ = self.conn.execute_batch("ROLLBACK");
    }
}

} // verus!
