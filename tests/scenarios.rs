use acuity_atomic_swap::rpc;
use acuity_atomic_swap::{
    hash_secret, AcuityAssetId, AcuityForeignAddress, AcuityLockId, AcuitySecret, AtomicSwap,
    Error, Event, Pallet,
};

const A: u64 = 1;
const B: u64 = 2;
const C: u64 = 3;
const D: u64 = 4;
const FUND: u64 = u64::from_le_bytes(*b"modlpy/t");

fn setup() -> Pallet {
    let mut p = Pallet::new(FUND);
    p.set_balance(A, 100);
    p.set_balance(B, 200);
    p.set_balance(C, 100);
    p.set_balance(D, 200);
    p
}

fn asset_0() -> AcuityAssetId {
    AcuityAssetId([0u8; 32])
}

fn asset_1() -> AcuityAssetId {
    AcuityAssetId([1u8; 32])
}

fn foreign() -> AcuityForeignAddress {
    AcuityForeignAddress([0u8; 32])
}

/// The value the module holds for others, read through its public queries.
fn held(p: &Pallet, sellers: &[(u64, AcuityAssetId, u128)], locks: &[AcuityLockId], stashers: &[(u64, AcuityAssetId)]) -> u128 {
    let mut sum = 0u128;
    for (s, a, price) in sellers {
        sum += p.get_order_value(*s, *a, *price, foreign());
    }
    for l in locks {
        sum += p.lock_id_value(*l).unwrap_or(0);
    }
    for (s, a) in stashers {
        sum += p.stash_value_of(*a, *s);
    }
    sum
}

#[test]
fn order_add_and_partial_remove() {
    let mut p = setup();
    assert_eq!(p.add_to_order(A, asset_0(), 5, foreign(), 50), Ok(()));
    assert_eq!(p.balance(A), 50);
    assert_eq!(p.balance(FUND), 50);
    assert_eq!(p.get_order_value(A, asset_0(), 5, foreign()), 50);
    let before = p.clone();
    assert_eq!(p.remove_from_order(A, asset_0(), 5, foreign(), 51), Err(Error::OrderTooSmall));
    assert_eq!(p, before);
    assert_eq!(p.remove_from_order(A, asset_0(), 5, foreign(), 50), Ok(()));
    assert_eq!(p.balance(A), 100);
    assert_eq!(p.balance(FUND), 0);
    assert_eq!(p.get_order_value(A, asset_0(), 5, foreign()), 0);
    assert!(p.orders.is_empty());
}

#[test]
fn order_change() {
    let mut p = setup();
    assert_eq!(p.add_to_order(A, asset_0(), 5, foreign(), 50), Ok(()));
    assert_eq!(p.change_order(A, asset_0(), 5, foreign(), asset_1(), 5, foreign(), 50), Ok(()));
    assert_eq!(p.get_order_value(A, asset_0(), 5, foreign()), 0);
    assert_eq!(p.get_order_value(A, asset_1(), 5, foreign()), 50);
    assert_eq!(p.balance(FUND), 50);
    assert_eq!(p.balance(A), 50);
    let n = p.events.len();
    assert_eq!(p.events[n - 2], Event::RemoveFromOrder(A, asset_0(), 5, foreign(), 50));
    assert_eq!(p.events[n - 1], Event::AddToOrder(A, asset_1(), 5, foreign(), 50));
}

#[test]
fn order_change_too_small_and_same_order() {
    let mut p = setup();
    assert_eq!(p.add_to_order(A, asset_0(), 5, foreign(), 50), Ok(()));
    assert_eq!(
        p.change_order(A, asset_0(), 5, foreign(), asset_1(), 5, foreign(), 51),
        Err(Error::OrderTooSmall)
    );
    assert_eq!(p.change_order(A, asset_0(), 5, foreign(), asset_0(), 5, foreign(), 20), Ok(()));
    assert_eq!(p.get_order_value(A, asset_0(), 5, foreign()), 50);
    assert_eq!(p.events.len(), 3);
}

#[test]
fn order_change_all_accumulates() {
    let mut p = setup();
    assert_eq!(p.add_to_order(A, asset_0(), 5, foreign(), 30), Ok(()));
    assert_eq!(p.add_to_order(A, asset_1(), 5, foreign(), 20), Ok(()));
    assert_eq!(p.change_order_all(A, asset_0(), 5, foreign(), asset_1(), 5, foreign()), Ok(()));
    assert_eq!(p.get_order_value(A, asset_0(), 5, foreign()), 0);
    assert_eq!(p.get_order_value(A, asset_1(), 5, foreign()), 50);
    assert_eq!(p.balance(FUND), 50);
}

#[test]
fn order_remove_all() {
    let mut p = setup();
    assert_eq!(p.add_to_order(A, asset_0(), 7, foreign(), 40), Ok(()));
    assert_eq!(p.remove_from_order_all(A, asset_0(), 7, foreign()), Ok(()));
    assert_eq!(p.balance(A), 100);
    assert_eq!(p.get_order_value(A, asset_0(), 7, foreign()), 0);
}

#[test]
fn order_add_beyond_balance_fails() {
    let mut p = setup();
    let before = p.clone();
    assert_eq!(p.add_to_order(A, asset_0(), 5, foreign(), 101), Err(Error::TransferFailed));
    assert_eq!(p, before);
}

#[test]
fn buy_lock_life_cycle() {
    let mut p = setup();
    let secret = AcuitySecret::default();
    let hashed = hash_secret(secret);
    assert_eq!(p.lock_buy(B, A, hashed, 1000, 50, asset_0(), 5), Ok(()));
    assert_eq!(p.balance(B), 150);
    assert_eq!(p.balance(FUND), 50);
    let lock_id = Pallet::get_lock_id(B, A, hashed, 1000);
    assert_eq!(p.lock_id_value(lock_id), Some(50));
    assert_eq!(p.unlock(A, B, secret, 1000), Ok(()));
    assert_eq!(p.balance(A), 150);
    assert_eq!(p.balance(B), 150);
    assert_eq!(p.balance(FUND), 0);
    assert_eq!(p.lock_id_value(lock_id), None);
    assert_eq!(p.events.last(), Some(&Event::Unlock(B, A, lock_id, secret)));

    let mut q = setup();
    assert_eq!(q.lock_buy(B, A, hashed, 0, 50, asset_0(), 5), Ok(()));
    assert_eq!(q.retrieve(B, A, hashed, 0), Ok(()));
    assert_eq!(q.balance(B), 200);
    assert_eq!(q.balance(FUND), 0);
}

#[test]
fn stash_ranking() {
    let mut p = setup();
    let a1 = asset_1();
    assert_eq!(p.deposit_stash(A, a1, 50), Ok(()));
    assert_eq!(p.get_stashes(a1, 0, 100), vec![(A, 50)]);
    assert_eq!(p.deposit_stash(B, a1, 40), Ok(()));
    assert_eq!(p.get_stashes(a1, 0, 100), vec![(A, 50), (B, 40)]);
    assert_eq!(p.deposit_stash(C, a1, 60), Ok(()));
    assert_eq!(p.get_stashes(a1, 0, 100), vec![(C, 60), (A, 50), (B, 40)]);
    assert_eq!(p.deposit_stash(D, a1, 45), Ok(()));
    assert_eq!(p.get_stashes(a1, 0, 100), vec![(C, 60), (A, 50), (D, 45), (B, 40)]);
    assert_eq!(p.deposit_stash(A, a1, 10), Ok(()));
    assert_eq!(p.get_stashes(a1, 0, 100), vec![(C, 60), (A, 60), (D, 45), (B, 40)]);
    assert_eq!(p.deposit_stash(A, a1, 1), Ok(()));
    assert_eq!(p.get_stashes(a1, 0, 100), vec![(A, 61), (C, 60), (D, 45), (B, 40)]);
}

#[test]
fn stash_pages_and_other_assets() {
    let mut p = setup();
    let a1 = asset_1();
    assert_eq!(p.deposit_stash(A, a1, 50), Ok(()));
    assert_eq!(p.deposit_stash(B, asset_0(), 70), Ok(()));
    assert_eq!(p.deposit_stash(C, a1, 60), Ok(()));
    assert_eq!(p.deposit_stash(D, a1, 45), Ok(()));
    assert_eq!(p.get_stashes(a1, 1, 1), vec![(A, 50)]);
    assert_eq!(p.get_stashes(a1, 1, 5), vec![(A, 50), (D, 45)]);
    assert_eq!(p.get_stashes(a1, 3, 5), vec![]);
    assert_eq!(p.get_stashes(a1, 0, 0), vec![]);
    assert_eq!(p.get_stashes(asset_0(), 0, 10), vec![(B, 70)]);
    let api = AtomicSwap::new(p.clone());
    assert_eq!(api.get_stashes(a1, 0, 2), vec![(C, 60), (A, 50)]);
}

#[test]
fn stash_withdraw_reranks_and_leaves() {
    let mut p = setup();
    let a1 = asset_1();
    assert_eq!(p.deposit_stash(A, a1, 50), Ok(()));
    assert_eq!(p.deposit_stash(B, a1, 40), Ok(()));
    assert_eq!(p.withdraw_stash(A, a1, 15), Ok(()));
    assert_eq!(p.get_stashes(a1, 0, 10), vec![(B, 40), (A, 35)]);
    assert_eq!(p.withdraw_stash(A, a1, 36), Err(Error::StashNotBigEnough));
    assert_eq!(p.withdraw_stash_all(A, a1), Ok(()));
    assert_eq!(p.get_stashes(a1, 0, 10), vec![(B, 40)]);
    assert_eq!(p.balance(A), 100);
    assert_eq!(p.stash_value_of(a1, A), 0);
}

#[test]
fn stash_zero_deposit_fails() {
    let mut p = setup();
    assert_eq!(p.deposit_stash(A, asset_1(), 0), Err(Error::ZeroValue));
    assert_eq!(p.deposit_stash(A, asset_1(), 101), Err(Error::TransferFailed));
}

#[test]
fn stash_move() {
    let mut p = setup();
    assert_eq!(p.deposit_stash(A, asset_0(), 50), Ok(()));
    assert_eq!(p.move_stash(A, asset_0(), asset_1(), 51), Err(Error::StashNotBigEnough));
    assert_eq!(p.move_stash(A, asset_0(), asset_1(), 20), Ok(()));
    assert_eq!(p.stash_value_of(asset_0(), A), 30);
    assert_eq!(p.stash_value_of(asset_1(), A), 20);
    assert_eq!(p.balance(FUND), 50);
    assert_eq!(p.balance(A), 50);
}

#[test]
fn stash_round_trip() {
    let mut p = setup();
    assert_eq!(p.deposit_stash(A, asset_1(), 30), Ok(()));
    assert_eq!(p.withdraw_stash(A, asset_1(), 30), Ok(()));
    assert_eq!(p.balance(A), 100);
    assert_eq!(p.stash_value_of(asset_1(), A), 0);
    assert!(p.stash.is_empty());
}

#[test]
fn order_round_trip() {
    let mut p = setup();
    assert_eq!(p.add_to_order(B, asset_1(), 9, foreign(), 120), Ok(()));
    assert_eq!(p.remove_from_order(B, asset_1(), 9, foreign(), 120), Ok(()));
    assert_eq!(p.balance(B), 200);
    assert_eq!(p.get_order_value(B, asset_1(), 9, foreign()), 0);
}

#[test]
fn lock_round_trip_after_timeout() {
    let mut p = setup();
    let hashed = hash_secret(AcuitySecret([7u8; 32]));
    assert_eq!(p.lock_buy(B, A, hashed, 500, 80, asset_0(), 5), Ok(()));
    assert_eq!(p.retrieve(B, A, hashed, 500), Err(Error::LockNotTimedOut));
    p.set_timestamp(600);
    assert_eq!(p.retrieve(B, A, hashed, 500), Ok(()));
    assert_eq!(p.balance(B), 200);
}

#[test]
fn timeout_boundary() {
    let mut p = setup();
    let secret = AcuitySecret([3u8; 32]);
    let hashed = hash_secret(secret);
    assert_eq!(p.lock_buy(B, A, hashed, 1000, 50, asset_0(), 5), Ok(()));
    p.set_timestamp(1000);
    assert_eq!(p.unlock(A, B, secret, 1000), Err(Error::LockTimedOut));
    assert_eq!(p.unlock_by_sender(B, A, secret, 1000), Err(Error::LockTimedOut));
    assert_eq!(p.retrieve(B, A, hashed, 1000), Ok(()));
    assert_eq!(p.balance(B), 200);
}

#[test]
fn unlock_needs_the_preimage() {
    let mut p = setup();
    let secret = AcuitySecret([3u8; 32]);
    let hashed = hash_secret(secret);
    assert_eq!(p.lock_buy(B, A, hashed, 1000, 50, asset_0(), 5), Ok(()));
    assert_eq!(p.unlock(A, B, AcuitySecret([4u8; 32]), 1000), Err(Error::LockDoesNotExist));
    assert_eq!(p.unlock(A, B, AcuitySecret::default(), 1000), Err(Error::LockDoesNotExist));
    assert_eq!(p.unlock(A, B, secret, 1000), Ok(()));
}

#[test]
fn unlock_by_sender_pays_recipient() {
    let mut p = setup();
    let secret = AcuitySecret([5u8; 32]);
    let hashed = hash_secret(secret);
    assert_eq!(p.lock_buy(B, A, hashed, 1000, 50, asset_0(), 5), Ok(()));
    assert_eq!(p.unlock_by_sender(B, A, secret, 1000), Ok(()));
    assert_eq!(p.balance(A), 150);
    assert_eq!(p.balance(B), 150);
    assert_eq!(p.balance(FUND), 0);
}

#[test]
fn lock_buy_beyond_balance_fails() {
    let mut p = setup();
    let hashed = hash_secret(AcuitySecret::default());
    assert_eq!(p.lock_buy(A, B, hashed, 1000, 101, asset_0(), 5), Err(Error::TransferFailed));
}

#[test]
fn lock_sell_from_stash_and_timeout_to_stash() {
    let mut p = setup();
    let hashed = hash_secret(AcuitySecret([9u8; 32]));
    assert_eq!(
        p.lock_sell(A, B, hashed, 10, 30, asset_1(), AcuityLockId::default()),
        Err(Error::StashNotBigEnough)
    );
    assert_eq!(p.deposit_stash(A, asset_1(), 50), Ok(()));
    assert_eq!(p.lock_sell(A, B, hashed, 10, 30, asset_1(), AcuityLockId::default()), Ok(()));
    assert_eq!(p.stash_value_of(asset_1(), A), 20);
    assert_eq!(p.balance(FUND), 50);
    assert_eq!(p.timeout_stash(A, B, hashed, 10, asset_1()), Err(Error::LockNotTimedOut));
    p.set_timestamp(10);
    assert_eq!(p.timeout_stash(A, B, hashed, 10, asset_1()), Ok(()));
    assert_eq!(p.stash_value_of(asset_1(), A), 50);
    assert_eq!(p.timeout_stash(A, B, hashed, 10, asset_1()), Err(Error::LockDoesNotExist));
    assert_eq!(p.balance(A), 50);
    assert_eq!(p.balance(FUND), 50);
}

#[test]
fn escrow_holds_what_is_held() {
    let mut p = setup();
    let hashed = hash_secret(AcuitySecret([2u8; 32]));
    assert_eq!(p.add_to_order(A, asset_0(), 5, foreign(), 30), Ok(()));
    assert_eq!(p.deposit_stash(B, asset_1(), 70), Ok(()));
    assert_eq!(p.lock_sell(B, A, hashed, 100, 20, asset_1(), AcuityLockId::default()), Ok(()));
    assert_eq!(p.lock_buy(C, D, hashed, 100, 40, asset_0(), 5), Ok(()));
    assert_eq!(p.change_order(A, asset_0(), 5, foreign(), asset_1(), 6, foreign(), 10), Ok(()));
    let sellers = [(A, asset_0(), 5u128), (A, asset_1(), 6u128)];
    let locks = [Pallet::get_lock_id(B, A, hashed, 100), Pallet::get_lock_id(C, D, hashed, 100)];
    let stashers = [(B, asset_1())];
    assert_eq!(p.balance(FUND), 140);
    assert_eq!(held(&p, &sellers, &locks, &stashers), 140);
    assert_eq!(p.balance(A) + p.balance(B) + p.balance(C) + p.balance(D) + p.balance(FUND), 600);
}

#[test]
fn index_records_blocks() {
    let mut p = setup();
    let hashed = hash_secret(AcuitySecret::default());
    p.set_block_number(3);
    assert_eq!(p.lock_buy(B, A, hashed, 1000, 50, asset_0(), 5), Ok(()));
    assert_eq!(p.deposit_stash(B, asset_1(), 10), Ok(()));
    p.set_block_number(7);
    assert_eq!(p.decline(A, B, hashed, 1000), Ok(()));
    assert_eq!(p.get_index_blocks(B), vec![3, 3, 7]);
    assert_eq!(p.get_index_blocks(A), vec![3, 7]);
    assert_eq!(p.get_index_blocks(C), Vec::<u64>::new());
    assert_eq!(p.account_next_index(B), 3);
    assert_eq!(p.account_index_height(B, 2), Some(7));
    assert_eq!(p.account_index_height(B, 3), None);
    assert_eq!(p.account_start_index(B), 0);
    let api = AtomicSwap::new(p);
    assert_eq!(api.get_index_blocks(B), vec![3, 3, 7]);
}

#[test]
fn failed_operations_record_nothing() {
    let mut p = setup();
    let hashed = hash_secret(AcuitySecret::default());
    assert_eq!(p.retrieve(B, A, hashed, 5), Err(Error::LockNotTimedOut));
    assert_eq!(p.get_index_blocks(B), Vec::<u64>::new());
    assert!(p.events.is_empty());
}

#[test]
fn lock_id_layout() {
    let hashed = hash_secret(AcuitySecret([1u8; 32]));
    let mut data = Vec::new();
    data.extend_from_slice(&2u64.to_le_bytes());
    data.extend_from_slice(&1u64.to_le_bytes());
    data.extend_from_slice(&hashed.0);
    data.extend_from_slice(&1000u64.to_le_bytes());
    assert_eq!(Pallet::get_lock_id(2, 1, hashed, 1000), AcuityLockId(sp_io::hashing::blake2_256(&data)));
    assert_ne!(Pallet::get_lock_id(2, 1, hashed, 1000), Pallet::get_lock_id(2, 1, hashed, 1001));
    assert_ne!(Pallet::get_lock_id(2, 1, hashed, 1000), Pallet::get_lock_id(1, 2, hashed, 1000));
}

#[test]
fn order_id_layout() {
    let mut data = Vec::new();
    data.extend_from_slice(&1u64.to_le_bytes());
    data.extend_from_slice(&[1u8; 32]);
    data.extend_from_slice(&5u128.to_le_bytes());
    data.extend_from_slice(&[0u8; 32]);
    let id = Pallet::get_order_id(A, asset_1(), 5, foreign());
    assert_eq!(id.0, sp_io::hashing::blake2_128(&data));
    assert_ne!(id, Pallet::get_order_id(A, asset_0(), 5, foreign()));
}

#[test]
fn secret_hash_is_keccak() {
    let hashed = hash_secret(AcuitySecret::default());
    let expected: [u8; 32] = [
        0x29, 0x0d, 0xec, 0xd9, 0x54, 0x8b, 0x62, 0xa8, 0xd6, 0x03, 0x45, 0xa9, 0x88, 0x38, 0x6f,
        0xc8, 0x4b, 0xa6, 0xbc, 0x95, 0x48, 0x40, 0x08, 0xf6, 0x36, 0x2f, 0x93, 0x16, 0x0e, 0xf3,
        0xe5, 0x63,
    ];
    assert_eq!(hashed.0, expected);
}

#[test]
fn rpc_error_codes() {
    assert_eq!(i32::from(rpc::Error::RuntimeError), 1);
    assert_eq!(i32::from(rpc::Error::DecodeError), 2);
}

#[test]
fn lock_sell_from_order_and_unlock() {
    let mut p = setup();
    let secret = AcuitySecret([0x4b; 32]);
    let hashed = hash_secret(secret);
    assert_eq!(p.add_to_order(A, asset_0(), 5, foreign(), 50), Ok(()));
    assert_eq!(p.lock_sell_order(A, hashed, asset_0(), 5, foreign(), B, 10, 1000), Ok(()));
    let order_id0 = Pallet::get_order_id(A, asset_0(), 5, foreign());
    assert_eq!(p.get_order_value(A, asset_0(), 5, foreign()), 40);
    assert_eq!(p.get_sell_lock(order_id0, hashed), Some((B, 1000, 10)));
    assert_eq!(p.unlock_sell(B, order_id0, secret), Ok(()));
    assert_eq!(p.balance(B), 210);
    assert_eq!(p.balance(FUND), 40);
    assert_eq!(p.get_sell_lock(order_id0, hashed), None);
}

#[test]
fn timeout_returns_to_order() {
    let mut p = setup();
    let secret = AcuitySecret([0x4b; 32]);
    let hashed = hash_secret(secret);
    assert_eq!(p.add_to_order(A, asset_0(), 5, foreign(), 50), Ok(()));
    assert_eq!(p.lock_sell_order(A, hashed, asset_0(), 5, foreign(), B, 10, 0), Ok(()));
    let order_id0 = Pallet::get_order_id(A, asset_0(), 5, foreign());
    assert_eq!(p.unlock_sell(B, order_id0, secret), Err(Error::LockTimedOut));
    assert_eq!(p.timeout_sell(A, hashed, asset_0(), 5, foreign()), Ok(()));
    assert_eq!(p.get_order_value(A, asset_0(), 5, foreign()), 50);
    assert_eq!(p.get_sell_lock(order_id0, hashed), None);
    assert_eq!(p.balance(A), 50);
    assert_eq!(p.balance(B), 200);
    assert_eq!(p.balance(FUND), 50);
}

#[test]
fn order_sell_lock_refusals() {
    let mut p = setup();
    let secret = AcuitySecret([6u8; 32]);
    let hashed = hash_secret(secret);
    assert_eq!(p.lock_sell_order(A, hashed, asset_0(), 5, foreign(), B, 0, 1000), Err(Error::ZeroValue));
    assert_eq!(
        p.lock_sell_order(A, hashed, asset_0(), 5, foreign(), B, 10, 1000),
        Err(Error::OrderTooSmall)
    );
    assert_eq!(p.add_to_order(A, asset_0(), 5, foreign(), 50), Ok(()));
    assert_eq!(p.lock_sell_order(A, hashed, asset_0(), 5, foreign(), B, 10, 1000), Ok(()));
    assert_eq!(
        p.lock_sell_order(A, hashed, asset_0(), 5, foreign(), C, 10, 2000),
        Err(Error::HashedSecretAlreadyInUse)
    );
    assert_eq!(p.timeout_sell(A, hashed, asset_0(), 5, foreign()), Err(Error::LockNotTimedOut));
    assert_eq!(p.timeout_sell(B, hashed, asset_0(), 5, foreign()), Err(Error::LockDoesNotExist));
    let order_id0 = Pallet::get_order_id(A, asset_0(), 5, foreign());
    assert_eq!(p.unlock_sell(C, order_id0, AcuitySecret([7u8; 32])), Err(Error::LockDoesNotExist));
    assert_eq!(p.unlock_sell(C, order_id0, secret), Ok(()));
    assert_eq!(p.balance(B), 210);
    assert_eq!(p.balance(C), 100);
}
