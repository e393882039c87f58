//! The pseudo-random value behind a new kitty's genome.
use vstd::prelude::*;

use crate::AccountId;

verus! {

/// What the host hands a transaction for drawing randomness: the block's random
/// seed and the position of the transaction within its block.
#[derive(Clone, Copy, Debug)]
pub struct TxContext {
    pub random_seed: [u8; 32],
    pub extrinsic_index: Option<u32>,
}

/// The `n` low-order bytes of `v`, least significant first.
pub open spec fn le_bytes(v: nat, n: nat) -> Seq<u8>
    decreases n,
{
    if n == 0 {
        Seq::empty()
    } else {
        seq![(v % 256) as u8] + le_bytes(v / 256, (n - 1) as nat)
    }
}

/// The SCALE encoding of an optional `u32`: a tag byte, then the value.
pub open spec fn option_u32_bytes(x: Option<u32>) -> Seq<u8> {
    match x {
        None => seq![0u8],
        Some(i) => seq![1u8] + le_bytes(i as nat, 4),
    }
}

/// The SCALE encoding of the triple (seed, account, transaction index).
pub open spec fn payload_bytes(seed: Seq<u8>, who: AccountId, extrinsic_index: Option<u32>) -> Seq<
    u8,
> {
    seed + le_bytes(who as nat, 8) + option_u32_bytes(extrinsic_index)
}

/// The 16-byte BLAKE2b digest of a byte string.
pub uninterp spec fn blake2_128_of(data: Seq<u8>) -> Seq<u8>;

/// The random value that `random_value` draws for `who` in the context `ctx`.
pub open spec fn random_of(who: AccountId, ctx: TxContext) -> Seq<u8> {
    blake2_128_of(payload_bytes(ctx.random_seed@, who, ctx.extrinsic_index))
}

/// Relies on parity-scale-codec's `Encode` for a tuple of a byte array, a `u64` and
/// an `Option<u32>`: the fields one after the other, the array without a length
/// prefix, the integers little-endian, the option as a tag byte 0 or 1 and the value.
#[verifier::external_body]
fn encode_payload(seed: &[u8; 32], who: AccountId, extrinsic_index: Option<u32>) -> (r: Vec<u8>)
    ensures
        r@ == payload_bytes(seed@, who, extrinsic_index),
{
    parity_scale_codec::Encode::encode(&(seed, who, extrinsic_index))
}

/// Relies on sp_io::hashing::blake2_128: the 128-bit BLAKE2b hash of the bytes.
#[verifier::external_body]
fn blake2_128(data: &Vec<u8>) -> (r: [u8; 16])
    ensures
        r@ == blake2_128_of(data@),
{
    sp_io::hashing::blake2_128(data.as_slice())
}

/// Hashes the block's random seed, the caller and the transaction index into 16
/// bytes: the same inputs always give the same value.
pub fn random_value(who: AccountId, ctx: &TxContext) -> (r: [u8; 16])
    ensures
        r@ == random_of(who, *ctx),
{
    let payload = encode_payload(&ctx.random_seed, who, ctx.extrinsic_index);
    blake2_128(&payload)
}

} // verus!
