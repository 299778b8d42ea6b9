//! Identifiers, errors and events of the swap module.
use vstd::prelude::*;

verus! {

/// An account of the host chain.
pub type AccountId = u64;

/// An amount of the native currency.
pub type Balance = u128;

/// A wall-clock reading of the host chain.
pub type Moment = u64;

/// A block height of the host chain.
pub type BlockNumber = u64;

/// An off-chain asset tag.
#[derive(Clone, Copy, PartialEq, Eq, Debug, Default)]
pub struct AcuityAssetId(pub [u8; 32]);

/// A lock identifier: the 256-bit Blake2 digest of the lock's parties, hashed secret and timeout.
#[derive(Clone, Copy, PartialEq, Eq, Debug, Default)]
pub struct AcuityLockId(pub [u8; 32]);

/// The Keccak-256 digest of a secret.
#[derive(Clone, Copy, PartialEq, Eq, Debug, Default)]
pub struct AcuityHashedSecret(pub [u8; 32]);

/// The preimage of a hashed secret.
#[derive(Clone, Copy, PartialEq, Eq, Debug, Default)]
pub struct AcuitySecret(pub [u8; 32]);

/// An address on the counterparty chain.
#[derive(Clone, Copy, PartialEq, Eq, Debug, Default)]
pub struct AcuityForeignAddress(pub [u8; 32]);

/// An order identifier: the 128-bit Blake2 digest of seller, asset, price and foreign address.
#[derive(Clone, Copy, PartialEq, Eq, Debug, Default)]
pub struct AcuityOrderId(pub [u8; 16]);

/// Why an operation was refused. A refused operation changes nothing.
#[derive(Clone, Copy, PartialEq, Eq, Debug, Structural)]
pub enum Error {
    /// Value must not be zero.
    ZeroValue,
    /// The order holds less than the value asked for.
    OrderTooSmall,
    /// The stash holds less than the value asked for.
    StashNotBigEnough,
    /// A sell lock on this order already uses this hashed secret.
    HashedSecretAlreadyInUse,
    /// Value has already been locked with this lock id.
    LockAlreadyExists,
    /// No value has been locked with this lock id.
    LockDoesNotExist,
    /// The lock has timed out.
    LockTimedOut,
    /// The lock has not timed out.
    LockNotTimedOut,
    /// The currency refused to move the value.
    TransferFailed,
}

/// What a successful operation reports, for observers off-chain.
#[derive(Clone, Copy, PartialEq, Eq, Debug)]
pub enum Event {
    /// \[seller, asset, price, foreign_address, value\]
    AddToOrder(AccountId, AcuityAssetId, u128, AcuityForeignAddress, Balance),
    /// \[seller, asset, price, foreign_address, value\]
    RemoveFromOrder(AccountId, AcuityAssetId, u128, AcuityForeignAddress, Balance),
    /// \[asset, account, value\]
    StashAdd(AcuityAssetId, AccountId, Balance),
    /// \[asset, account, value\]
    StashRemove(AcuityAssetId, AccountId, Balance),
    /// \[creator, recipient, hashed_secret, timeout, value, lock_id, sell_asset_id, sell_price\]
    LockBuy(AccountId, AccountId, AcuityHashedSecret, Moment, Balance, AcuityLockId, AcuityAssetId, u128),
    /// \[creator, recipient, hashed_secret, timeout, value, lock_id, stash_asset_id, buy_lock_id\]
    LockSell(AccountId, AccountId, AcuityHashedSecret, Moment, Balance, AcuityLockId, AcuityAssetId, AcuityLockId),
    /// \[creator, recipient, lock_id\]
    Decline(AccountId, AccountId, AcuityLockId),
    /// \[creator, recipient, lock_id, secret\]
    Unlock(AccountId, AccountId, AcuityLockId, AcuitySecret),
    /// \[creator, recipient, lock_id\]
    Retrieve(AccountId, AccountId, AcuityLockId),
    /// \[seller, buyer, order_id, hashed_secret, value, timeout\]
    OrderLock(AccountId, AccountId, AcuityOrderId, AcuityHashedSecret, Balance, Moment),
    /// \[buyer, order_id, secret\]
    OrderUnlock(AccountId, AcuityOrderId, AcuitySecret),
    /// \[seller, order_id, hashed_secret\]
    OrderTimeout(AccountId, AcuityOrderId, AcuityHashedSecret),
}

/// A sell lock on an order: (order id, hashed secret, buyer, timeout).
pub type SellLockKey = (AcuityOrderId, AcuityHashedSecret, AccountId, Moment);

/// Whether two 32-byte values are equal, byte by byte.
pub fn eq_bytes32(a: &[u8; 32], b: &[u8; 32]) -> (r: bool)
    ensures
        r == (*a == *b),
{
    let mut i: usize = 0;
    while i < 32
        invariant
            0 <= i <= 32,
            forall|j: int| 0 <= j < i ==> a[j] == b[j],
        decreases 32 - i,
    {
        if a[i] != b[i] {
            return false;
        }
        i = i + 1;
    }
    assert(*a =~= *b);
    true
}

/// Whether two 16-byte values are equal, byte by byte.
pub fn eq_bytes16(a: &[u8; 16], b: &[u8; 16]) -> (r: bool)
    ensures
        r == (*a == *b),
{
    let mut i: usize = 0;
    while i < 16
        invariant
            0 <= i <= 16,
            forall|j: int| 0 <= j < i ==> a[j] == b[j],
        decreases 16 - i,
    {
        if a[i] != b[i] {
            return false;
        }
        i = i + 1;
    }
    assert(*a =~= *b);
    true
}

} // verus!
