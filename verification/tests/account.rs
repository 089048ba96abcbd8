use capycoin::account::{
    create_accounts_table, create_seed_account, get_accounts, load_account, save_account, Account,
    AccountError, SEED_ACCOUNT_CREATED,
};
use capycoin::account::seed_account_id;
use capycoin::store::Store;

fn fresh_store() -> Store {
    let mut store = Store::open_in_memory().unwrap();
    create_accounts_table(&mut store).unwrap();
    store
}

#[test]
fn test_new_account() {
    let a1 = Account::new();
    let a2 = Account::new();

    assert_ne!(a1.account_id, a2.account_id, "account ids should be unique");
    assert_ne!(a1.created, a2.created);
    assert_eq!(a1.funds, 0);
}

#[test]
fn test_create_accounts_table() {
    let mut store = Store::open_in_memory().unwrap();

    create_accounts_table(&mut store).unwrap();

    // With the table in place an account scan succeeds and finds nothing.
    let accts = get_accounts(&store).unwrap();
    assert_eq!(accts.len(), 0);

    // Creating the table again is harmless.
    create_accounts_table(&mut store).unwrap();
}

#[test]
fn test_create_seed_account() {
    let s = create_seed_account();
    assert_eq!(s.account_id, seed_account_id());
    assert_eq!(s.created, SEED_ACCOUNT_CREATED);
    assert_eq!(s.funds, 100000);
}

#[test]
fn test_save_account() {
    let mut store = fresh_store();

    let a = Account::new();
    let created = save_account(&mut store, &a).unwrap();

    assert_eq!(created.account_id, a.account_id);
    assert!(created.timestamp > a.created);

    let accts = get_accounts(&store).unwrap();
    assert_eq!(accts.iter().filter(|x| x.account_id == a.account_id).count(), 1);
}

#[test]
fn test_save_account_account_already_exists() {
    let mut store = fresh_store();

    let a = Account::new();
    save_account(&mut store, &a).unwrap();
    let err = save_account(&mut store, &a).expect_err("should not allow duplicate account ids");
    assert_eq!(err, AccountError::AccountAlreadyExists);
}

#[test]
fn test_save_account_no_table_is_store_error() {
    let mut store = Store::open_in_memory().unwrap();
    let a = Account::new();
    let err = save_account(&mut store, &a).expect_err("no table to save into");
    assert_eq!(err, AccountError::StoreError);
}

#[test]
fn test_load_account() {
    let mut store = fresh_store();

    let a = Account::new();
    save_account(&mut store, &a).unwrap();

    let b: Account = load_account(&store, a.account_id).unwrap();
    assert_eq!(a, b);
}

#[test]
fn test_load_account_repeatable() {
    let mut store = fresh_store();

    let a = Account::new();
    save_account(&mut store, &a).unwrap();

    let first = load_account(&store, a.account_id);
    let second = load_account(&store, a.account_id);
    assert_eq!(first, second);
}

#[test]
fn test_load_account_does_not_exist() {
    let mut store = fresh_store();

    let account_id = Account::new().account_id;
    let err = load_account(&store, account_id)
        .expect_err("should not allow loading an unknown account");
    assert_eq!(err, AccountError::AccountDoesNotExist);
}

#[test]
fn test_get_accounts_none() {
    let store = {
        let mut s = Store::open_in_memory().unwrap();
        create_accounts_table(&mut s).unwrap();
        s
    };

    let accts = get_accounts(&store).unwrap();
    assert_eq!(accts.len(), 0);
}

#[test]
fn test_get_accounts() {
    let mut store = fresh_store();

    let a1 = Account::new();
    save_account(&mut store, &a1).unwrap();

    let a2 = Account::new();
    save_account(&mut store, &a2).unwrap();

    let accts = get_accounts(&store).unwrap();
    assert_eq!(accts.len(), 2);

    // The listing is ordered by account id, so compare against the two
    // saved accounts in that order.
    let (first, second) = if a1.account_id < a2.account_id { (a1, a2) } else { (a2, a1) };
    assert_eq!(first, accts[0]);
    assert_eq!(second, accts[1]);
}
