//! Identifier derivation: canonical byte encodings, concatenated, then hashed.
use vstd::prelude::*;
use crate::pallet::Pallet;
use crate::types::{
    AccountId, AcuityAssetId, AcuityForeignAddress, AcuityHashedSecret, AcuityLockId,
    AcuityOrderId, AcuitySecret, Moment,
};

verus! {

/// The 256-bit Blake2 digest of a byte string.
pub uninterp spec fn blake2_256_of(data: Seq<u8>) -> [u8; 32];

/// The 128-bit Blake2 digest of a byte string.
pub uninterp spec fn blake2_128_of(data: Seq<u8>) -> [u8; 16];

/// The Keccak-256 digest of a byte string.
pub uninterp spec fn keccak_256_of(data: Seq<u8>) -> [u8; 32];

/// The `n` low bytes of `x`, least significant first.
pub open spec fn le_bytes(x: nat, n: nat) -> Seq<u8>
    decreases n,
{
    if n == 0 {
        Seq::empty()
    } else {
        seq![(x % 256) as u8] + le_bytes(x / 256, (n - 1) as nat)
    }
}

/// The bytes hashed into a lock id.
pub open spec fn lock_id_preimage(
    sender: AccountId,
    recipient: AccountId,
    hashed_secret: AcuityHashedSecret,
    timeout: Moment,
) -> Seq<u8> {
    le_bytes(sender as nat, 8) + le_bytes(recipient as nat, 8) + hashed_secret.0@ + le_bytes(
        timeout as nat,
        8,
    )
}

pub open spec fn lock_id_of(
    sender: AccountId,
    recipient: AccountId,
    hashed_secret: AcuityHashedSecret,
    timeout: Moment,
) -> AcuityLockId {
    AcuityLockId(blake2_256_of(lock_id_preimage(sender, recipient, hashed_secret, timeout)))
}

/// The bytes hashed into an order id.
pub open spec fn order_id_preimage(
    seller: AccountId,
    asset: AcuityAssetId,
    price: u128,
    foreign: AcuityForeignAddress,
) -> Seq<u8> {
    le_bytes(seller as nat, 8) + asset.0@ + le_bytes(price as nat, 16) + foreign.0@
}

pub open spec fn order_id_of(
    seller: AccountId,
    asset: AcuityAssetId,
    price: u128,
    foreign: AcuityForeignAddress,
) -> AcuityOrderId {
    AcuityOrderId(blake2_128_of(order_id_preimage(seller, asset, price, foreign)))
}

pub open spec fn hashed_secret_of(secret: AcuitySecret) -> AcuityHashedSecret {
    AcuityHashedSecret(keccak_256_of(secret.0@))
}

/// Relies on sp_io::hashing::blake2_256: the digest depends on the bytes alone.
#[verifier::external_body]
fn blake2_256(data: &Vec<u8>) -> (r: [u8; 32])
    ensures
        r == blake2_256_of(data@),
{
    sp_io::hashing::blake2_256(data.as_slice())
}

/// Relies on sp_io::hashing::blake2_128: the digest depends on the bytes alone.
#[verifier::external_body]
fn blake2_128(data: &Vec<u8>) -> (r: [u8; 16])
    ensures
        r == blake2_128_of(data@),
{
    sp_io::hashing::blake2_128(data.as_slice())
}

/// Relies on sp_io::hashing::keccak_256: the digest depends on the bytes alone.
#[verifier::external_body]
fn keccak_256(data: &Vec<u8>) -> (r: [u8; 32])
    ensures
        r == keccak_256_of(data@),
{
    sp_io::hashing::keccak_256(data.as_slice())
}

/// Relies on parity_scale_codec's `Encode` for `u64`: its eight bytes, least significant first.
#[verifier::external_body]
fn encode_u64(x: u64) -> (r: Vec<u8>)
    ensures
        r@ == le_bytes(x as nat, 8),
{
    parity_scale_codec::Encode::encode(&x)
}

/// Relies on parity_scale_codec's `Encode` for `u128`: its sixteen bytes, least significant first.
#[verifier::external_body]
fn encode_u128(x: u128) -> (r: Vec<u8>)
    ensures
        r@ == le_bytes(x as nat, 16),
{
    parity_scale_codec::Encode::encode(&x)
}

/// Relies on parity_scale_codec's `Encode` for `[u8; 32]`: the bytes as they are, with no length.
#[verifier::external_body]
fn encode_bytes32(a: &[u8; 32]) -> (r: Vec<u8>)
    ensures
        r@ == a@,
{
    parity_scale_codec::Encode::encode(a)
}

/// Appends `tail` to `v`.
fn append_bytes(v: &mut Vec<u8>, tail: &Vec<u8>)
    ensures
        final(v)@ == old(v)@ + tail@,
{
    let mut i: usize = 0;
    while i < tail.len()
        invariant
            0 <= i <= tail@.len(),
            v@ == old(v)@ + tail@.subrange(0, i as int),
        decreases tail@.len() - i,
    {
        v.push(tail[i]);
        i = i + 1;
        assert(tail@.subrange(0, i as int) =~= tail@.subrange(0, i - 1) + seq![tail@[i - 1]]);
    }
    assert(tail@.subrange(0, tail@.len() as int) =~= tail@);
}

impl Pallet {
    /// The id of the lock that `sender` makes for `recipient` on `hashed_secret` until `timeout`.
    pub fn get_lock_id(
        sender: AccountId,
        recipient: AccountId,
        hashed_secret: AcuityHashedSecret,
        timeout: Moment,
    ) -> (r: AcuityLockId)
        ensures
            r == lock_id_of(sender, recipient, hashed_secret, timeout),
    {
        let mut data = encode_u64(sender);
        append_bytes(&mut data, &encode_u64(recipient));
        append_bytes(&mut data, &encode_bytes32(&hashed_secret.0));
        append_bytes(&mut data, &encode_u64(timeout));
        AcuityLockId(blake2_256(&data))
    }

    /// The id of the order that `seller` holds for `asset` at `price` towards `foreign`.
    pub fn get_order_id(
        seller: AccountId,
        asset: AcuityAssetId,
        price: u128,
        foreign: AcuityForeignAddress,
    ) -> (r: AcuityOrderId)
        ensures
            r == order_id_of(seller, asset, price, foreign),
    {
        let mut data = encode_u64(seller);
        append_bytes(&mut data, &encode_bytes32(&asset.0));
        append_bytes(&mut data, &encode_u128(price));
        append_bytes(&mut data, &encode_bytes32(&foreign.0));
        AcuityOrderId(blake2_128(&data))
    }
}

/// The hashed secret that `secret` is the preimage of.
pub fn hash_secret(secret: AcuitySecret) -> (r: AcuityHashedSecret)
    ensures
        r == hashed_secret_of(secret),
{
    let data = encode_bytes32(&secret.0);
    AcuityHashedSecret(keccak_256(&data))
}

} // verus!
