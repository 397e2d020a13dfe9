//! Word/byte conversion helpers.
//!
//! A verification key is a fixed sequence of eight 32-bit words. Two distinct
//! byte packings of such a sequence are in use and must never be confused:
//! little-endian words for the binary commitment and the constrained
//! verification path, big-endian words for display digests.

use vstd::prelude::*;

verus! {

/// The four bytes of `w` in little-endian order.
pub open spec fn le_bytes_of_word(w: u32) -> Seq<u8> {
    seq![
        (w & 0xff) as u8,
        ((w >> 8) & 0xff) as u8,
        ((w >> 16) & 0xff) as u8,
        ((w >> 24) & 0xff) as u8,
    ]
}

/// The four bytes of `w` in big-endian order.
pub open spec fn be_bytes_of_word(w: u32) -> Seq<u8> {
    seq![
        ((w >> 24) & 0xff) as u8,
        ((w >> 16) & 0xff) as u8,
        ((w >> 8) & 0xff) as u8,
        (w & 0xff) as u8,
    ]
}

/// The word encoded by four little-endian bytes.
pub open spec fn word_of_le_bytes(s: Seq<u8>) -> u32
    recommends
        s.len() == 4,
{
    (s[0] as u32) | ((s[1] as u32) << 8) | ((s[2] as u32) << 16) | ((s[3] as u32) << 24)
}

/// The word encoded by four big-endian bytes.
pub open spec fn word_of_be_bytes(s: Seq<u8>) -> u32
    recommends
        s.len() == 4,
{
    ((s[0] as u32) << 24) | ((s[1] as u32) << 16) | ((s[2] as u32) << 8) | (s[3] as u32)
}

/// Little-endian packing of a word sequence: byte block `4*i .. 4*i+4` holds
/// `ws[i]` in little-endian order.
pub open spec fn le_bytes_of_words(ws: Seq<u32>) -> Seq<u8> {
    Seq::new(ws.len() * 4, |i: int| le_bytes_of_word(ws[i / 4])[i % 4])
}

/// Big-endian packing of a word sequence: byte block `4*i .. 4*i+4` holds
/// `ws[i]` in big-endian order.
pub open spec fn be_bytes_of_words(ws: Seq<u32>) -> Seq<u8> {
    Seq::new(ws.len() * 4, |i: int| be_bytes_of_word(ws[i / 4])[i % 4])
}

/// Decoding of a byte sequence four little-endian bytes at a time.
pub open spec fn words_of_le_bytes(bs: Seq<u8>) -> Seq<u32>
    recommends
        bs.len() % 4 == 0,
{
    Seq::new(bs.len() / 4, |i: int| word_of_le_bytes(bs.subrange(4 * i, 4 * i + 4)))
}

/// Decoding of a byte sequence four big-endian bytes at a time.
pub open spec fn words_of_be_bytes(bs: Seq<u8>) -> Seq<u32>
    recommends
        bs.len() % 4 == 0,
{
    Seq::new(bs.len() / 4, |i: int| word_of_be_bytes(bs.subrange(4 * i, 4 * i + 4)))
}

/// Packs eight 32-bit words into 32 bytes, each word little-endian.
pub fn words_to_bytes_le(words: &[u32; 8]) -> (bytes: [u8; 32])
    ensures
        bytes@ == le_bytes_of_words(words@),
{
    let mut bytes: [u8; 32] = [0u8; 32];
    let mut i: usize = 0;
    while i < 8
        invariant
            i <= 8,
            forall|k: int|
                0 <= k < i ==> bytes@.subrange(4 * k, 4 * k + 4) == le_bytes_of_word(words@[k]),
        decreases 8 - i,
    {
        let w = words[i];
        bytes[4 * i] = (w & 0xff) as u8;
        bytes[4 * i + 1] = ((w >> 8) & 0xff) as u8;
        bytes[4 * i + 2] = ((w >> 16) & 0xff) as u8;
        bytes[4 * i + 3] = ((w >> 24) & 0xff) as u8;
        proof {
            assert forall|k: int| 0 <= k < i + 1 implies bytes@.subrange(4 * k, 4 * k + 4)
                == le_bytes_of_word(words@[k]) by {
                assert(bytes@.subrange(4 * k, 4 * k + 4) =~= le_bytes_of_word(words@[k]));
            }
        }
        i = i + 1;
    }
    proof {
        assert forall|n: int| 0 <= n < 32 implies bytes@[n] == le_bytes_of_words(words@)[n] by {
            let k = n / 4;
            assert(bytes@.subrange(4 * k, 4 * k + 4)[n % 4] == bytes@[n]);
        }
        assert(bytes@ =~= le_bytes_of_words(words@));
    }
    bytes
}

/// Packs eight 32-bit words into 32 bytes, each word big-endian.
pub fn words_to_bytes_be(words: &[u32; 8]) -> (bytes: [u8; 32])
    ensures
        bytes@ == be_bytes_of_words(words@),
{
    let mut bytes: [u8; 32] = [0u8; 32];
    let mut i: usize = 0;
    while i < 8
        invariant
            i <= 8,
            forall|k: int|
                0 <= k < i ==> bytes@.subrange(4 * k, 4 * k + 4) == be_bytes_of_word(words@[k]),
        decreases 8 - i,
    {
        let w = words[i];
        bytes[4 * i] = ((w >> 24) & 0xff) as u8;
        bytes[4 * i + 1] = ((w >> 16) & 0xff) as u8;
        bytes[4 * i + 2] = ((w >> 8) & 0xff) as u8;
        bytes[4 * i + 3] = (w & 0xff) as u8;
        proof {
            assert forall|k: int| 0 <= k < i + 1 implies bytes@.subrange(4 * k, 4 * k + 4)
                == be_bytes_of_word(words@[k]) by {
                assert(bytes@.subrange(4 * k, 4 * k + 4) =~= be_bytes_of_word(words@[k]));
            }
        }
        i = i + 1;
    }
    proof {
        assert forall|n: int| 0 <= n < 32 implies bytes@[n] == be_bytes_of_words(words@)[n] by {
            let k = n / 4;
            assert(bytes@.subrange(4 * k, 4 * k + 4)[n % 4] == bytes@[n]);
        }
        assert(bytes@ =~= be_bytes_of_words(words@));
    }
    bytes
}

/// A word survives the little-endian byte round trip.
proof fn lemma_word_le_round_trip(w: u32)
    ensures
        word_of_le_bytes(le_bytes_of_word(w)) == w,
{
    let b0 = (w & 0xff) as u8;
    let b1 = ((w >> 8) & 0xff) as u8;
    let b2 = ((w >> 16) & 0xff) as u8;
    let b3 = ((w >> 24) & 0xff) as u8;
    assert((b0 as u32) | ((b1 as u32) << 8) | ((b2 as u32) << 16) | ((b3 as u32) << 24) == w)
        by (bit_vector)
        requires
            b0 == (w & 0xff) as u8,
            b1 == ((w >> 8) & 0xff) as u8,
            b2 == ((w >> 16) & 0xff) as u8,
            b3 == ((w >> 24) & 0xff) as u8,
    ;
}

/// A word survives the big-endian byte round trip.
proof fn lemma_word_be_round_trip(w: u32)
    ensures
        word_of_be_bytes(be_bytes_of_word(w)) == w,
{
    let b0 = ((w >> 24) & 0xff) as u8;
    let b1 = ((w >> 16) & 0xff) as u8;
    let b2 = ((w >> 8) & 0xff) as u8;
    let b3 = (w & 0xff) as u8;
    assert(((b0 as u32) << 24) | ((b1 as u32) << 16) | ((b2 as u32) << 8) | (b3 as u32) == w)
        by (bit_vector)
        requires
            b0 == ((w >> 24) & 0xff) as u8,
            b1 == ((w >> 16) & 0xff) as u8,
            b2 == ((w >> 8) & 0xff) as u8,
            b3 == (w & 0xff) as u8,
    ;
}

/// Decoding the little-endian byte packing of any word sequence, four bytes
/// at a time, reproduces the sequence exactly.
pub proof fn lemma_words_le_round_trip(ws: Seq<u32>)
    ensures
        words_of_le_bytes(le_bytes_of_words(ws)) == ws,
{
    let bs = le_bytes_of_words(ws);
    assert forall|i: int| 0 <= i < ws.len() implies words_of_le_bytes(bs)[i] == ws[i] by {
        assert(bs.subrange(4 * i, 4 * i + 4) =~= le_bytes_of_word(ws[i]));
        lemma_word_le_round_trip(ws[i]);
    }
    assert(words_of_le_bytes(bs) =~= ws);
}

/// Decoding the big-endian byte packing of any word sequence, four bytes at a
/// time, reproduces the sequence exactly.
pub proof fn lemma_words_be_round_trip(ws: Seq<u32>)
    ensures
        words_of_be_bytes(be_bytes_of_words(ws)) == ws,
{
    let bs = be_bytes_of_words(ws);
    assert forall|i: int| 0 <= i < ws.len() implies words_of_be_bytes(bs)[i] == ws[i] by {
        assert(bs.subrange(4 * i, 4 * i + 4) =~= be_bytes_of_word(ws[i]));
        lemma_word_be_round_trip(ws[i]);
    }
    assert(words_of_be_bytes(bs) =~= ws);
}

} // verus!
