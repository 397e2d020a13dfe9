//! Digest recomputation over public-input byte buffers.
//!
//! Every batch entry is checked against a digest recomputed here from the raw
//! bytes; a digest is never accepted from an external source.

use vstd::prelude::*;

verus! {

/// The 32-byte secure hash of a byte sequence. The digest is a function of
/// the input bytes alone; its value is fixed by the hash scheme, not stated
/// here.
pub uninterp spec fn sha256_of(input: Seq<u8>) -> Seq<u8>;

/// Relies on sha2::Sha256::digest: the 256-bit digest of the input bytes,
/// a pure function of its argument.
#[verifier::external_body]
pub(crate) fn sha256_digest(input: &[u8]) -> (r: [u8; 32])
    ensures
        r@ == sha256_of(input@),
{
    let digest = <sha2::Sha256 as sha2::Digest>::digest(input);
    digest.into()
}

/// Recomputes the digest of every public-input buffer, in batch order.
pub fn batch_digests(inputs: &[Vec<u8>]) -> (digests: Vec<[u8; 32]>)
    ensures
        digests@.len() == inputs@.len(),
        forall|i: int| 0 <= i < inputs@.len() ==> digests@[i]@ == sha256_of(inputs@[i]@),
{
    let mut digests: Vec<[u8; 32]> = Vec::new();
    let mut i: usize = 0;
    while i < inputs.len()
        invariant
            i <= inputs@.len(),
            digests@.len() == i,
            forall|k: int| 0 <= k < i ==> digests@[k]@ == sha256_of(inputs@[k]@),
        decreases inputs@.len() - i,
    {
        let digest = sha256_digest(inputs[i].as_slice());
        digests.push(digest);
        i = i + 1;
    }
    digests
}

} // verus!
