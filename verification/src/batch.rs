//! Batch verification orchestration.
//!
//! The proof-verification primitive is a capability of the surrounding
//! execution environment, not of this library: it is injected through the
//! [`ProofVerifier`] trait, so the batch logic can be exercised against a
//! deterministic stand-in such as [`TableVerifier`].

use crate::digest::sha256_of;
use vstd::prelude::*;

verus! {

/// The external proof-verification primitive: one operation that takes a
/// verification key and an expected public-input digest and reports success
/// or failure, with no further detail.
pub trait ProofVerifier {
    /// Which (key, digest) pairs this primitive accepts.
    spec fn accepts(&self, vkey: Seq<u32>, digest: Seq<u8>) -> bool;

    /// Checks one proof against its key and expected digest.
    fn verify(&self, vkey: &[u32; 8], digest: &[u8; 32]) -> (r: bool)
        ensures
            r == self.accepts(vkey@, digest@),
    ;
}

/// Why a batch was rejected.
#[derive(Clone, Copy, Debug, PartialEq, Eq, Structural)]
pub enum BatchError {
    /// The key and value sequences differ in length.
    LengthMismatch,
    /// The proof at this index failed verification; every earlier index had
    /// already passed.
    VerificationFailed { index: usize },
}

/// Every entry of the batch passes verification against the recomputed
/// digest of its public inputs.
pub open spec fn batch_accepted<V: ProofVerifier>(
    v: &V,
    vkeys: Seq<Seq<u32>>,
    inputs: Seq<Seq<u8>>,
) -> bool {
    forall|i: int| 0 <= i < vkeys.len() ==> v.accepts(vkeys[i], sha256_of(inputs[i]))
}

/// Verifies a whole batch, in order: recomputes the digest of each
/// public-input buffer and checks the paired key and digest against the
/// verification primitive. A length mismatch is rejected before any
/// verification; the first failing entry rejects the batch.
pub fn verify_batch<V: ProofVerifier>(
    checker: &V,
    vkeys: &[[u32; 8]],
    inputs: &[Vec<u8>],
) -> (r: Result<(), BatchError>)
    ensures
        r is Ok <==> (vkeys@.len() == inputs@.len() && batch_accepted(
            checker,
            vkeys.deep_view(),
            inputs.deep_view(),
        )),
        r == Result::<(), BatchError>::Err(BatchError::LengthMismatch) <==> vkeys@.len()
            != inputs@.len(),
        forall|i: usize|
            r == Result::<(), BatchError>::Err(BatchError::VerificationFailed { index: i }) ==> {
                &&& i < vkeys@.len()
                &&& !checker.accepts(vkeys@[i as int]@, sha256_of(inputs@[i as int]@))
                &&& forall|j: int|
                    0 <= j < i ==> checker.accepts(vkeys@[j]@, sha256_of(inputs@[j]@))
            },
{
    if vkeys.len() != inputs.len() {
        return Err(BatchError::LengthMismatch);
    }
    let n = vkeys.len();
    let mut i: usize = 0;
    while i < n
        invariant
            i <= n,
            n == vkeys@.len(),
            n == inputs@.len(),
            forall|j: int| 0 <= j < i ==> checker.accepts(vkeys@[j]@, sha256_of(inputs@[j]@)),
        decreases n - i,
    {
        let digest = crate::digest::sha256_digest(inputs[i].as_slice());
        let ok = checker.verify(&vkeys[i], &digest);
        if !ok {
            proof {
                assert(vkeys.deep_view().len() == vkeys@.len());
                assert(vkeys.deep_view()[i as int] == vkeys@[i as int]@);
                assert(inputs.deep_view()[i as int] == inputs@[i as int]@);
            }
            return Err(BatchError::VerificationFailed { index: i });
        }
        i = i + 1;
    }
    proof {
        assert(vkeys.deep_view().len() == vkeys@.len());
        assert forall|k: int| 0 <= k < vkeys@.len() implies checker.accepts(
            vkeys.deep_view()[k],
            sha256_of(inputs.deep_view()[k]),
        ) by {
            assert(vkeys.deep_view()[k] == vkeys@[k]@);
            assert(inputs.deep_view()[k] == inputs@[k]@);
        }
    }
    Ok(())
}

/// A deterministic stand-in for the proof-verification primitive: it accepts
/// exactly the (key, digest) pairs it was built with. The batch logic can be
/// exercised against it outside the constrained execution environment.
pub struct TableVerifier {
    /// The accepted (verification key, digest) pairs.
    pub entries: Vec<([u32; 8], [u8; 32])>,
}

/// Whether two eight-word keys hold the same words.
fn keys_equal(a: &[u32; 8], b: &[u32; 8]) -> (r: bool)
    ensures
        r == (a@ == b@),
{
    let mut i: usize = 0;
    while i < 8
        invariant
            i <= 8,
            forall|k: int| 0 <= k < i ==> a@[k] == b@[k],
        decreases 8 - i,
    {
        if a[i] != b[i] {
            return false;
        }
        i = i + 1;
    }
    proof {
        assert(a@ =~= b@);
    }
    true
}

/// Whether two 32-byte digests hold the same bytes.
fn digests_equal(a: &[u8; 32], b: &[u8; 32]) -> (r: bool)
    ensures
        r == (a@ == b@),
{
    let mut i: usize = 0;
    while i < 32
        invariant
            i <= 32,
            forall|k: int| 0 <= k < i ==> a@[k] == b@[k],
        decreases 32 - i,
    {
        if a[i] != b[i] {
            return false;
        }
        i = i + 1;
    }
    proof {
        assert(a@ =~= b@);
    }
    true
}

impl ProofVerifier for TableVerifier {
    open spec fn accepts(&self, vkey: Seq<u32>, digest: Seq<u8>) -> bool {
        exists|j: int|
            0 <= j < self.entries@.len() && self.entries@[j].0@ == vkey && self.entries@[j].1@
                == digest
    }

    fn verify(&self, vkey: &[u32; 8], digest: &[u8; 32]) -> (r: bool) {
        let mut j: usize = 0;
        while j < self.entries.len()
            invariant
                j <= self.entries@.len(),
                forall|k: int|
                    0 <= k < j ==> !(self.entries@[k].0@ == vkey@ && self.entries@[k].1@
                        == digest@),
            decreases self.entries@.len() - j,
        {
            let entry = &self.entries[j];
            if keys_equal(&entry.0, vkey) && digests_equal(&entry.1, digest) {
                return true;
            }
            j = j + 1;
        }
        false
    }
}

} // verus!
