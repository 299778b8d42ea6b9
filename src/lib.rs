//! Settlement of cross-chain atomic swaps: hashed-timelock locks, a seller
//! order book, ranked per-asset stash pools and a per-account event index,
//! all backed by one escrow account whose balance always equals the value
//! the module holds.
pub mod hashing;
pub mod keyed;
pub mod laws;
pub mod ledger;
pub mod locks;
pub mod order_locks;
pub mod orders;
pub mod pallet;
pub mod rpc;
pub mod stash;
pub mod types;

pub use hashing::hash_secret;
pub use pallet::Pallet;
pub use rpc::AtomicSwap;
pub use types::{
    AccountId, AcuityAssetId, AcuityForeignAddress, AcuityHashedSecret, AcuityLockId,
    AcuityOrderId, AcuitySecret, Balance, BlockNumber, Error, Event, Moment,
};
