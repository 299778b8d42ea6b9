use acuity_atomic_swap::{
    hash_secret, AcuityAssetId, AcuityHashedSecret, AcuityLockId, AcuitySecret, Error, Pallet,
};

const A: u64 = 1;
const B: u64 = 2;
const C: u64 = 3;
const D: u64 = 4;

/// The escrow account: "modl" followed by the module tag "py/trsry", cut to eight bytes.
const FUND: u64 = u64::from_le_bytes(*b"modlpy/t");

fn new_test_ext() -> Pallet {
    let mut p = Pallet::new(FUND);
    p.set_balance(A, 100);
    p.set_balance(B, 200);
    p.set_balance(C, 100);
    p.set_balance(D, 200);
    p
}

fn default_hashed_secret() -> AcuityHashedSecret {
    hash_secret(AcuitySecret::default())
}

#[test]
fn lock_buy_control_lock_zero_value() {
    let mut p = new_test_ext();
    let hashed_secret = default_hashed_secret();
    let now = p.now;
    let value = 50;
    assert_eq!(p.lock_buy(B, A, hashed_secret, now + 1000, value, AcuityAssetId::default(), 5), Ok(()));
}

#[test]
fn lock_buy_fail_lock_zero_value() {
    let mut p = new_test_ext();
    let hashed_secret = default_hashed_secret();
    let now = p.now;
    let value = 0;
    let before = p.clone();
    assert_eq!(
        p.lock_buy(B, A, hashed_secret, now + 1000, value, AcuityAssetId::default(), 5),
        Err(Error::ZeroValue)
    );
    assert_eq!(p, before);
}

#[test]
fn lock_buy_control_lock_already_exists() {
    let mut p = new_test_ext();
    let hashed_secret = default_hashed_secret();
    let now = p.now;
    assert_eq!(p.lock_buy(B, A, hashed_secret, now + 1000, 50, AcuityAssetId::default(), 5), Ok(()));
    assert_eq!(p.lock_buy(B, A, hashed_secret, now + 1001, 50, AcuityAssetId::default(), 5), Ok(()));
}

#[test]
fn lock_buy_fail_lock_already_exists() {
    let mut p = new_test_ext();
    let hashed_secret = default_hashed_secret();
    let now = p.now;
    assert_eq!(p.lock_buy(B, A, hashed_secret, now + 1000, 50, AcuityAssetId::default(), 5), Ok(()));
    let before = p.clone();
    assert_eq!(
        p.lock_buy(B, A, hashed_secret, now + 1000, 50, AcuityAssetId::default(), 5),
        Err(Error::LockAlreadyExists)
    );
    assert_eq!(p, before);
}

#[test]
fn lock_buy() {
    let mut p = new_test_ext();
    let hashed_secret = default_hashed_secret();
    let timeout = p.now + 1000;
    let value = 50;
    assert_eq!(p.lock_buy(B, A, hashed_secret, timeout, value, AcuityAssetId::default(), 5), Ok(()));

    let lock_id = Pallet::get_lock_id(B, A, hashed_secret, timeout);
    assert_eq!(p.lock_id_value(lock_id).unwrap(), value);
}

#[test]
fn lock_sell_control_lock_zero_value() {
    let mut p = new_test_ext();
    assert_eq!(p.deposit_stash(B, AcuityAssetId::default(), 50), Ok(()));
    let hashed_secret = default_hashed_secret();
    let now = p.now;
    let value = 50;
    assert_eq!(
        p.lock_sell(B, A, hashed_secret, now + 1000, value, AcuityAssetId::default(), AcuityLockId::default()),
        Ok(())
    );
}

#[test]
fn lock_sell_fail_lock_zero_value() {
    let mut p = new_test_ext();
    assert_eq!(p.deposit_stash(B, AcuityAssetId::default(), 50), Ok(()));
    let hashed_secret = default_hashed_secret();
    let now = p.now;
    let value = 0;
    let before = p.clone();
    assert_eq!(
        p.lock_sell(B, A, hashed_secret, now + 1000, value, AcuityAssetId::default(), AcuityLockId::default()),
        Err(Error::ZeroValue)
    );
    assert_eq!(p, before);
}

#[test]
fn lock_sell_control_lock_already_exists() {
    let mut p = new_test_ext();
    assert_eq!(p.deposit_stash(B, AcuityAssetId::default(), 100), Ok(()));
    let hashed_secret = default_hashed_secret();
    let now = p.now;
    assert_eq!(
        p.lock_sell(B, A, hashed_secret, now + 1000, 50, AcuityAssetId::default(), AcuityLockId::default()),
        Ok(())
    );
    assert_eq!(
        p.lock_sell(B, A, hashed_secret, now + 1001, 50, AcuityAssetId::default(), AcuityLockId::default()),
        Ok(())
    );
}

#[test]
fn lock_sell_fail_lock_already_exists() {
    let mut p = new_test_ext();
    assert_eq!(p.deposit_stash(B, AcuityAssetId::default(), 100), Ok(()));
    let hashed_secret = default_hashed_secret();
    let now = p.now;
    assert_eq!(
        p.lock_sell(B, A, hashed_secret, now + 1000, 50, AcuityAssetId::default(), AcuityLockId::default()),
        Ok(())
    );
    let before = p.clone();
    assert_eq!(
        p.lock_sell(B, A, hashed_secret, now + 1000, 50, AcuityAssetId::default(), AcuityLockId::default()),
        Err(Error::LockAlreadyExists)
    );
    assert_eq!(p, before);
}

#[test]
fn lock_sell() {
    let mut p = new_test_ext();
    assert_eq!(p.deposit_stash(B, AcuityAssetId::default(), 50), Ok(()));
    let hashed_secret = default_hashed_secret();
    let timeout = p.now + 1000;
    let value = 50;
    assert_eq!(
        p.lock_sell(B, A, hashed_secret, timeout, value, AcuityAssetId::default(), AcuityLockId::default()),
        Ok(())
    );

    let lock_id = Pallet::get_lock_id(B, A, hashed_secret, timeout);
    assert_eq!(p.lock_id_value(lock_id).unwrap(), value);
}

#[test]
fn decline_control_not_exist() {
    let mut p = new_test_ext();
    let hashed_secret = default_hashed_secret();
    let timeout = p.now + 1000;
    let value = 50;

    assert_eq!(p.lock_buy(B, A, hashed_secret, timeout, value, AcuityAssetId::default(), 5), Ok(()));
    assert_eq!(p.decline(A, B, hashed_secret, timeout), Ok(()));
}

#[test]
fn decline_fail_not_exist() {
    let mut p = new_test_ext();
    let hashed_secret = default_hashed_secret();
    let timeout = p.now + 1000;

    let before = p.clone();
    assert_eq!(p.decline(A, B, hashed_secret, timeout), Err(Error::LockDoesNotExist));
    assert_eq!(p, before);
}

#[test]
fn decline() {
    let mut p = new_test_ext();
    let hashed_secret = default_hashed_secret();
    let timeout = p.now + 1000;
    let value = 50;
    let lock_id = Pallet::get_lock_id(B, A, hashed_secret, timeout);

    assert_eq!(p.lock_buy(B, A, hashed_secret, timeout, value, AcuityAssetId::default(), 5), Ok(()));
    assert_eq!(p.lock_id_value(lock_id), Some(value));

    assert_eq!(p.decline(A, B, hashed_secret, timeout), Ok(()));
    assert_eq!(p.lock_id_value(lock_id), None);
}

#[test]
fn unlock_control_timed_out() {
    let mut p = new_test_ext();
    let secret = AcuitySecret::default();
    let hashed_secret = default_hashed_secret();
    let timeout = p.now + 1000;
    let value = 50;

    assert_eq!(p.lock_buy(B, A, hashed_secret, timeout, value, AcuityAssetId::default(), 5), Ok(()));
    assert_eq!(p.unlock(A, B, secret, timeout), Ok(()));
}

#[test]
fn unlock_fail_timed_out() {
    let mut p = new_test_ext();
    let secret = AcuitySecret::default();
    let hashed_secret = default_hashed_secret();
    let timeout = p.now;
    let value = 50;

    assert_eq!(p.lock_buy(B, A, hashed_secret, timeout, value, AcuityAssetId::default(), 5), Ok(()));
    let before = p.clone();
    assert_eq!(p.unlock(A, B, secret, timeout), Err(Error::LockTimedOut));
    assert_eq!(p, before);
}

#[test]
fn unlock_control_not_exist() {
    let mut p = new_test_ext();
    let secret = AcuitySecret::default();
    let hashed_secret = default_hashed_secret();
    let timeout = p.now + 1000;
    let value = 50;

    assert_eq!(p.lock_buy(B, A, hashed_secret, timeout, value, AcuityAssetId::default(), 5), Ok(()));
    assert_eq!(p.unlock(A, B, secret, timeout), Ok(()));
}

#[test]
fn unlock_fail_not_exist() {
    let mut p = new_test_ext();
    let secret = AcuitySecret::default();
    let timeout = p.now + 1000;

    let before = p.clone();
    assert_eq!(p.unlock(A, B, secret, timeout), Err(Error::LockDoesNotExist));
    assert_eq!(p, before);
}

#[test]
fn unlock() {
    let mut p = new_test_ext();
    let secret = AcuitySecret::default();
    let hashed_secret = default_hashed_secret();
    let timeout = p.now + 1000;
    let value = 50;
    let lock_id = Pallet::get_lock_id(B, A, hashed_secret, timeout);

    assert_eq!(p.lock_buy(B, A, hashed_secret, timeout, value, AcuityAssetId::default(), 5), Ok(()));
    assert_eq!(p.lock_id_value(lock_id), Some(value));

    assert_eq!(p.unlock(A, B, secret, timeout), Ok(()));
    assert_eq!(p.lock_id_value(lock_id), None);
}

#[test]
fn retrieve_control_not_timed_out() {
    let mut p = new_test_ext();
    let hashed_secret = default_hashed_secret();
    let timeout = p.now;
    let value = 50;

    assert_eq!(p.lock_buy(B, A, hashed_secret, timeout, value, AcuityAssetId::default(), 5), Ok(()));
    assert_eq!(p.retrieve(B, A, hashed_secret, timeout), Ok(()));
}

#[test]
fn retrieve_fail_timed_out() {
    let mut p = new_test_ext();
    let hashed_secret = default_hashed_secret();
    let timeout = p.now + 1000;
    let value = 50;

    assert_eq!(p.lock_buy(B, A, hashed_secret, timeout, value, AcuityAssetId::default(), 5), Ok(()));

    let before = p.clone();
    assert_eq!(p.retrieve(B, A, hashed_secret, timeout), Err(Error::LockNotTimedOut));
    assert_eq!(p, before);
}

#[test]
fn retrieve_control_not_exist() {
    let mut p = new_test_ext();
    let hashed_secret = default_hashed_secret();
    let timeout = p.now;
    let value = 50;

    assert_eq!(p.lock_buy(B, A, hashed_secret, timeout, value, AcuityAssetId::default(), 5), Ok(()));
    assert_eq!(p.retrieve(B, A, hashed_secret, timeout), Ok(()));
}

#[test]
fn retrieve_fail_not_exist() {
    let mut p = new_test_ext();
    let hashed_secret = default_hashed_secret();
    let timeout = p.now;

    let before = p.clone();
    assert_eq!(p.retrieve(B, A, hashed_secret, timeout), Err(Error::LockDoesNotExist));
    assert_eq!(p, before);
}

#[test]
fn retrieve() {
    let mut p = new_test_ext();
    let hashed_secret = default_hashed_secret();
    let timeout = p.now;
    let value = 50;
    let lock_id = Pallet::get_lock_id(B, A, hashed_secret, timeout);

    assert_eq!(p.lock_buy(B, A, hashed_secret, timeout, value, AcuityAssetId::default(), 5), Ok(()));
    assert_eq!(p.lock_id_value(lock_id), Some(value));

    assert_eq!(p.retrieve(B, A, hashed_secret, timeout), Ok(()));
    assert_eq!(p.lock_id_value(lock_id), None);
}

#[test]
fn genesis_balances() {
    let p = new_test_ext();
    assert_eq!(p.balance(A), 100);
    assert_eq!(p.balance(B), 200);
    assert_eq!(p.balance(C), 100);
    assert_eq!(p.balance(D), 200);
    assert_eq!(p.balance(FUND), 0);
}
