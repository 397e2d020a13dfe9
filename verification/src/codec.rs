//! Canonical commitment encoding of a verified batch.
//!
//! The commitment packs the whole batch into one byte sequence:
//!
//! ```text
//! u32   N                              -- entry count, big-endian
//! for each i in 0..N:
//!     32 bytes  keys[i], little-endian word packing
//! for each i in 0..N:
//!     u32       len(values[i]), big-endian
//!     bytes     values[i], raw
//! ```
//!
//! The outer length fields are big-endian to match a packed cross-language
//! encoding convention of the downstream verifier; the key block keeps the
//! little-endian word packing used inside the constrained environment. The
//! two orders are deliberate and must not be unified.

use crate::words::be_bytes_of_word;
use crate::words::le_bytes_of_words;
use crate::words::words_to_bytes_le;
use vstd::prelude::*;

verus! {

/// The concatenated little-endian packings of all keys, in batch order.
pub open spec fn spec_key_block(vkeys: Seq<Seq<u32>>) -> Seq<u8>
    decreases vkeys.len(),
{
    if vkeys.len() == 0 {
        Seq::empty()
    } else {
        spec_key_block(vkeys.drop_last()) + le_bytes_of_words(vkeys.last())
    }
}

/// The concatenated length-prefixed values, in batch order: each value is
/// framed by its length as a big-endian 32-bit integer.
pub open spec fn spec_value_block(values: Seq<Seq<u8>>) -> Seq<u8>
    decreases values.len(),
{
    if values.len() == 0 {
        Seq::empty()
    } else {
        spec_value_block(values.drop_last()) + be_bytes_of_word(values.last().len() as u32)
            + values.last()
    }
}

/// The full commitment: big-endian entry count, then the key block, then the
/// value block.
pub open spec fn spec_commitment(vkeys: Seq<Seq<u32>>, values: Seq<Seq<u8>>) -> Seq<u8> {
    be_bytes_of_word(vkeys.len() as u32) + spec_key_block(vkeys) + spec_value_block(values)
}

/// Sum of the framed sizes of all values: each value costs four length bytes
/// plus its own bytes.
pub open spec fn spec_framed_values_len(values: Seq<Seq<u8>>) -> int
    decreases values.len(),
{
    if values.len() == 0 {
        0
    } else {
        spec_framed_values_len(values.drop_last()) + 4 + values.last().len()
    }
}

/// Appends the four big-endian bytes of `w` to `out`.
fn push_word_be(out: &mut Vec<u8>, w: u32)
    ensures
        final(out)@ == old(out)@ + be_bytes_of_word(w),
{
    out.push(((w >> 24) & 0xff) as u8);
    out.push(((w >> 16) & 0xff) as u8);
    out.push(((w >> 8) & 0xff) as u8);
    out.push((w & 0xff) as u8);
    proof {
        assert(out@ =~= old(out)@ + be_bytes_of_word(w));
    }
}

/// Encodes a batch of verification keys and committed value buffers into the
/// single canonical commitment byte sequence. The two sequences must pair up
/// index by index; the count and every value length must be representable in
/// the 32-bit frame fields.
pub fn commit_proof_pairs(vkeys: &[[u32; 8]], committed_values: &[Vec<u8>]) -> (res: Vec<u8>)
    requires
        vkeys@.len() == committed_values@.len(),
        vkeys@.len() <= u32::MAX,
        forall|i: int| 0 <= i < committed_values@.len() ==> committed_values@[i]@.len() <= u32::MAX,
    ensures
        res@ == spec_commitment(vkeys.deep_view(), committed_values.deep_view()),
{
    let n = vkeys.len();
    let mut res: Vec<u8> = Vec::new();
    push_word_be(&mut res, n as u32);

    let ghost keys_view = vkeys.deep_view();
    let ghost values_view = committed_values.deep_view();
    let ghost header = be_bytes_of_word(n as u32);

    let mut i: usize = 0;
    while i < n
        invariant
            i <= n,
            n == vkeys@.len(),
            keys_view == vkeys.deep_view(),
            header == be_bytes_of_word(n as u32),
            keys_view.len() == n,
            res@ == header + spec_key_block(keys_view.take(i as int)),
        decreases n - i,
    {
        let block = words_to_bytes_le(&vkeys[i]);
        let mut j: usize = 0;
        while j < 32
            invariant
                j <= 32,
                block@.len() == 32,
                res@ == header + spec_key_block(keys_view.take(i as int)) + block@.take(j as int),
            decreases 32 - j,
        {
            res.push(block[j]);
            proof {
                assert(res@ =~= header + spec_key_block(keys_view.take(i as int)) + block@.take(
                    j + 1,
                ));
            }
            j = j + 1;
        }
        proof {
            assert(block@.take(32) =~= block@);
            assert(keys_view.take(i + 1).drop_last() =~= keys_view.take(i as int));
            assert(keys_view.take(i + 1).last() == keys_view[i as int]);
            assert(keys_view[i as int] == vkeys@[i as int]@);
            assert(res@ =~= header + spec_key_block(keys_view.take(i + 1)));
        }
        i = i + 1;
    }
    proof {
        assert(keys_view.take(n as int) =~= keys_view);
    }

    let mut i: usize = 0;
    while i < n
        invariant
            i <= n,
            n == committed_values@.len(),
            keys_view == vkeys.deep_view(),
            values_view == committed_values.deep_view(),
            header == be_bytes_of_word(n as u32),
            values_view.len() == n,
            forall|k: int| 0 <= k < n ==> committed_values@[k]@.len() <= u32::MAX,
            res@ == header + spec_key_block(keys_view) + spec_value_block(
                values_view.take(i as int),
            ),
        decreases n - i,
    {
        let vals = &committed_values[i];
        let len = vals.len();
        push_word_be(&mut res, len as u32);
        let mut j: usize = 0;
        while j < len
            invariant
                j <= len,
                len == vals@.len(),
                vals@ == values_view[i as int],
                i < values_view.len(),
                res@ == header + spec_key_block(keys_view) + spec_value_block(
                    values_view.take(i as int),
                ) + be_bytes_of_word(len as u32) + vals@.take(j as int),
            decreases len - j,
        {
            res.push(vals[j]);
            proof {
                assert(res@ =~= header + spec_key_block(keys_view) + spec_value_block(
                    values_view.take(i as int),
                ) + be_bytes_of_word(len as u32) + vals@.take(j + 1));
            }
            j = j + 1;
        }
        proof {
            assert(vals@.take(len as int) =~= vals@);
            assert(values_view.take(i + 1).drop_last() =~= values_view.take(i as int));
            assert(values_view.take(i + 1).last() == values_view[i as int]);
            assert(res@ =~= header + spec_key_block(keys_view) + spec_value_block(
                values_view.take(i + 1),
            ));
        }
        i = i + 1;
    }
    proof {
        assert(values_view.take(n as int) =~= values_view);
    }
    res
}

/// The encoder is deterministic: equal batches have byte-identical
/// commitments.
pub proof fn lemma_commitment_deterministic(
    vkeys1: Seq<Seq<u32>>,
    values1: Seq<Seq<u8>>,
    vkeys2: Seq<Seq<u32>>,
    values2: Seq<Seq<u8>>,
)
    requires
        vkeys1 == vkeys2,
        values1 == values2,
    ensures
        spec_commitment(vkeys1, values1) == spec_commitment(vkeys2, values2),
{
}

/// The key block of a batch of eight-word keys takes exactly 32 bytes per
/// key.
proof fn lemma_key_block_len(vkeys: Seq<Seq<u32>>)
    requires
        forall|i: int| 0 <= i < vkeys.len() ==> #[trigger] vkeys[i].len() == 8,
    ensures
        spec_key_block(vkeys).len() == 32 * vkeys.len(),
    decreases vkeys.len(),
{
    if vkeys.len() > 0 {
        lemma_key_block_len(vkeys.drop_last());
    }
}

/// The value block takes exactly the framed size of the values.
proof fn lemma_value_block_len(values: Seq<Seq<u8>>)
    ensures
        spec_value_block(values).len() == spec_framed_values_len(values),
    decreases values.len(),
{
    if values.len() > 0 {
        lemma_value_block_len(values.drop_last());
    }
}

/// The commitment of a batch of eight-word keys is exactly
/// `4 + 32 * N + sum over i of (4 + values[i].len())` bytes long.
pub proof fn lemma_commitment_len(vkeys: Seq<Seq<u32>>, values: Seq<Seq<u8>>)
    requires
        forall|i: int| 0 <= i < vkeys.len() ==> #[trigger] vkeys[i].len() == 8,
    ensures
        spec_commitment(vkeys, values).len() == 4 + 32 * vkeys.len() + spec_framed_values_len(
            values,
        ),
{
    lemma_key_block_len(vkeys);
    lemma_value_block_len(values);
}

} // verus!
