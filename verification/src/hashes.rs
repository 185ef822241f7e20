//! Hash digests and their printable form, computed by outside crates.

use crate::bytes::append_bytes;
use blake2::Digest;
use vstd::prelude::*;

verus! {

/// Length in bytes of a Blake2b-256 digest, the length of block and
/// operation hashes.
pub const HASH_LEN: usize = 32;

/// Blake2b with a 32-byte output, applied to `data`.
pub uninterp spec fn blake2b_256(data: Seq<u8>) -> Seq<u8>;

/// Base58Check (bitcoin alphabet, 4-byte double-SHA-256 checksum) of `payload`.
pub uninterp spec fn base58check(payload: Seq<u8>) -> Seq<char>;

/// Calls `Digest::digest` of `blake2::Blake2b<U32>`. Trusted: the result is
/// the Blake2b-256 digest of `data`, which is 32 bytes long, as the output
/// size `U32` of the type fixes.
#[verifier::external_body]
pub(crate) fn digest_256(data: &[u8]) -> (digest: Vec<u8>)
    ensures
        digest@ == blake2b_256(data@),
        digest@.len() == HASH_LEN,
{
    blake2::Blake2b::<blake2::digest::consts::U32>::digest(data).to_vec()
}

/// Calls `bs58::encode(payload).with_check().into_string()`. Trusted: the
/// result is the Base58Check encoding of `payload`; nothing more is said of
/// its characters.
#[verifier::external_body]
pub(crate) fn to_base58check(payload: &[u8]) -> (encoded: String)
    ensures
        encoded@ == base58check(payload@),
{
    bs58::encode(payload).with_check().into_string()
}

/// The two-byte prefix that makes a Base58Check string start with `B`, used
/// for block hashes.
pub open spec fn block_hash_prefix() -> Seq<u8> {
    seq![1u8, 52u8]
}

/// The printable form of a block hash: Base58Check of the block-hash prefix
/// followed by the hash.
pub open spec fn block_hash_string(hash: Seq<u8>) -> Seq<char> {
    base58check(block_hash_prefix() + hash)
}

/// The printable form of a 32-byte block hash.
pub fn block_hash_to_b58check(hash: &[u8]) -> (encoded: String)
    requires
        hash@.len() == HASH_LEN,
    ensures
        encoded@ == block_hash_string(hash@),
{
    let mut payload: Vec<u8> = Vec::with_capacity(2 + HASH_LEN);
    payload.push(1u8);
    payload.push(52u8);
    assert(payload@ =~= block_hash_prefix());
    append_bytes(&mut payload, hash);
    to_base58check(payload.as_slice())
}

/// The printable form of a block hash is Base58Check of a 34-byte payload:
/// the bytes 1 and 52, then the hash unchanged.
pub proof fn law_block_hash_string_payload(hash: Seq<u8>)
    requires
        hash.len() == HASH_LEN,
    ensures
        exists|payload: Seq<u8>|
            {
                &&& block_hash_string(hash) == base58check(payload)
                &&& payload.len() == 34
                &&& payload[0] == 1u8
                &&& payload[1] == 52u8
                &&& payload.subrange(2, 34) == hash
            },
{
    let payload = seq![1u8, 52u8] + hash;
    assert(payload.subrange(2, 34) =~= hash);
    assert(block_hash_string(hash) == base58check(payload));
}

} // verus!
