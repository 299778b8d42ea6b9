//! Read-only queries over the module's state.
use vstd::prelude::*;
use crate::pallet::Pallet;
use crate::stash::page;
use crate::types::{AccountId, AcuityAssetId, Balance, BlockNumber};

verus! {

/// Answers queries against one snapshot of the module's state.
pub struct AtomicSwap {
    pub client: Pallet,
}

/// Why a query failed.
#[derive(Clone, Copy, PartialEq, Eq, Debug, Structural)]
pub enum Error {
    /// The transaction was not decodable.
    DecodeError,
    /// The call to runtime failed.
    RuntimeError,
}

impl From<Error> for i32 {
    fn from(e: Error) -> (r: i32) {
        match e {
            Error::RuntimeError => 1,
            Error::DecodeError => 2,
        }
    }
}

impl vstd::std_specs::convert::FromSpecImpl<Error> for i32 {
    open spec fn obeys_from_spec() -> bool {
        true
    }

    open spec fn from_spec(e: Error) -> i32 {
        match e {
            Error::RuntimeError => 1,
            Error::DecodeError => 2,
        }
    }
}

impl AtomicSwap {
    pub fn new(client: Pallet) -> (r: AtomicSwap)
        ensures
            r.client == client,
    {
        AtomicSwap { client }
    }

    /// The block heights at which `account` took part in an operation, oldest first.
    pub fn get_index_blocks(&self, account: AccountId) -> (r: Vec<BlockNumber>)
        ensures
            r@ == self.client.index_blocks(account),
    {
        self.client.get_index_blocks(account)
    }

    /// Up to `limit` entries of the ranked stash list of `asset`, from position `offset` on.
    pub fn get_stashes(&self, asset: AcuityAssetId, offset: u64, limit: u64) -> (r: Vec<
        (AccountId, Balance),
    >)
        ensures
            r@ == page(self.client.stashes(asset), offset as nat, limit as nat),
    {
        self.client.get_stashes(asset, offset, limit)
    }
}

} // verus!
