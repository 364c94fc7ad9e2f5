//! The content hash by which duplicate tasks are recognised.

use crate::instant::Instant;
use sha2::Digest;
use vstd::prelude::*;

verus! {

/// The SHA-256 digest of `data`.
pub uninterp spec fn sha256(data: Seq<u8>) -> Seq<u8>;

/// Trusted: calls `sha2::Sha256::digest` and copies the output array into a
/// vector.
///
/// The contract claims that the digest is a function of the input bytes and
/// that it is 32 bytes long, the output size that `sha2` declares for SHA-256.
#[verifier::external_body]
pub(crate) fn sha256_digest(data: &Vec<u8>) -> (digest: Vec<u8>)
    ensures
        digest@ == sha256(data@),
        digest@.len() == 32,
{
    sha2::Sha256::digest(data).to_vec()
}

/// The bytes that are hashed for one occurrence of a recurring task: the
/// payload, followed by the due instant as eight bytes for the seconds, moved
/// up by two to the power of 63 so that they are never negative, and four bytes
/// for the nanoseconds, each in little-endian order.
pub open spec fn occurrence_key(metadata: Seq<u8>, due: Instant) -> Seq<u8> {
    metadata + vstd::bytes::spec_u64_to_le_bytes((due.secs + 0x8000_0000_0000_0000) as u64)
        + vstd::bytes::spec_u32_to_le_bytes(due.nanos)
}

/// Appends `extra` to `target`.
fn append_bytes(target: &mut Vec<u8>, extra: &Vec<u8>)
    ensures
        final(target)@ == old(target)@ + extra@,
{
    let mut k: usize = 0;
    while k < extra.len()
        invariant
            k <= extra.len(),
            target@ == old(target)@ + extra@.take(k as int),
        decreases extra.len() - k,
    {
        target.push(extra[k]);
        assert(extra@.take(k as int + 1) =~= extra@.take(k as int).push(extra@[k as int]));
        k += 1;
    }
    assert(extra@.take(k as int) =~= extra@);
}

/// The hash of a task that must not be enqueued twice: the SHA-256 digest of
/// its payload.
pub fn content_hash(metadata: &Vec<u8>) -> (hash: Vec<u8>)
    ensures
        hash@ == sha256(metadata@),
        hash@.len() == 32,
{
    sha256_digest(metadata)
}

/// The hash of one occurrence of a recurring task: the SHA-256 digest of its
/// payload and its due instant.
pub fn occurrence_hash(metadata: &Vec<u8>, due: Instant) -> (hash: Vec<u8>)
    ensures
        hash@ == sha256(occurrence_key(metadata@, due)),
        hash@.len() == 32,
{
    let mut key = metadata.clone();
    let lifted: u64 = (due.secs as i128 + 0x8000_0000_0000_0000i128) as u64;
    let seconds = vstd::bytes::u64_to_le_bytes(lifted);
    let nanos = vstd::bytes::u32_to_le_bytes(due.nanos);
    append_bytes(&mut key, &seconds);
    append_bytes(&mut key, &nanos);
    sha256_digest(&key)
}

} // verus!
