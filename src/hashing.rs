//! SHA-256 and MD5 digests of a buffer, whole or chunk by chunk.

use vstd::prelude::*;
use crate::compression::{append_bytes, flatten};

verus! {

/// The SHA-256 digest of a byte sequence.
pub uninterp spec fn sha256_of(data: Seq<u8>) -> Seq<u8>;

/// The MD5 digest of a byte sequence.
pub uninterp spec fn md5_of(data: Seq<u8>) -> Seq<u8>;

/// Relies on sha2's `Sha256` through `Digest::digest` of the digest crate
/// (a fresh hasher, one update, finalize): the SHA-256 digest of `data`,
/// whose output size is 32 bytes.
#[verifier::external_body]
fn sha256_digest(data: &[u8]) -> (r: Vec<u8>)
    ensures
        r@ == sha256_of(data@),
        r@.len() == 32,
{
    <sha2::Sha256 as sha2::Digest>::digest(data).to_vec()
}

/// Relies on `md5::compute`: the MD5 digest of `data`, a `Digest` holding
/// 16 bytes.
#[verifier::external_body]
fn md5_digest(data: &[u8]) -> (r: Vec<u8>)
    ensures
        r@ == md5_of(data@),
        r@.len() == 16,
{
    md5::compute(data).0.to_vec()
}

/// A SHA-256 digest and an MD5 digest.
pub struct Digests {
    pub sha256: Vec<u8>,
    pub md5: Vec<u8>,
}

/// Both digests of `data`.
pub fn hash_digests(data: &[u8]) -> (r: Digests)
    ensures
        r.sha256@ == sha256_of(data@),
        r.md5@ == md5_of(data@),
        r.sha256@.len() == 32,
        r.md5@.len() == 16,
{
    Digests { sha256: sha256_digest(data), md5: md5_digest(data) }
}

/// The SHA-256 digests of the chunks, one after the other.
pub open spec fn joined_sha256(chunks: Seq<Digests>) -> Seq<u8> {
    flatten(chunks.map_values(|d: Digests| d.sha256))
}

/// The MD5 digests of the chunks, one after the other.
pub open spec fn joined_md5(chunks: Seq<Digests>) -> Seq<u8> {
    flatten(chunks.map_values(|d: Digests| d.md5))
}

/// Combines the digests of consecutive chunks into one pair: the SHA-256
/// digest of all the chunks' SHA-256 digests joined in order, and the MD5
/// digest of all their MD5 digests joined in order.
pub fn combine_chunk_digests(chunks: &Vec<Digests>) -> (r: Digests)
    ensures
        r.sha256@ == sha256_of(joined_sha256(chunks@)),
        r.md5@ == md5_of(joined_md5(chunks@)),
{
    let mut all_sha: Vec<u8> = Vec::new();
    let mut all_md5: Vec<u8> = Vec::new();
    let mut i: usize = 0;
    while i < chunks.len()
        invariant
            i <= chunks@.len(),
            all_sha@ == joined_sha256(chunks@.subrange(0, i as int)),
            all_md5@ == joined_md5(chunks@.subrange(0, i as int)),
        decreases chunks@.len() - i,
    {
        append_bytes(&mut all_sha, &chunks[i].sha256);
        append_bytes(&mut all_md5, &chunks[i].md5);
        proof {
            let next = chunks@.subrange(0, i + 1);
            let prev = chunks@.subrange(0, i as int);
            assert(next.map_values(|d: Digests| d.sha256).drop_last() =~= prev.map_values(
                |d: Digests| d.sha256,
            ));
            assert(next.map_values(|d: Digests| d.md5).drop_last() =~= prev.map_values(
                |d: Digests| d.md5,
            ));
        }
        i += 1;
    }
    assert(chunks@.subrange(0, chunks@.len() as int) =~= chunks@);
    Digests { sha256: sha256_digest(all_sha.as_slice()), md5: md5_digest(all_md5.as_slice()) }
}

} // verus!
