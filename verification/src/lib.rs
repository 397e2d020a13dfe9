//! Verified core of a proof-aggregation pipeline: recompute a digest for each
//! batch entry, check every (verification key, digest) pair against an
//! injected proof-verification primitive, and pack the validated batch into
//! one canonical byte commitment.

pub mod batch;
pub mod codec;
pub mod digest;
pub mod words;

pub use batch::verify_batch;
pub use codec::commit_proof_pairs;
pub use digest::batch_digests;
pub use words::words_to_bytes_be;
pub use words::words_to_bytes_le;
