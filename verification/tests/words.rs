use aggregation_lib::words_to_bytes_be;
use aggregation_lib::words_to_bytes_le;

#[test]
fn le_packing_matches_per_word_le_bytes() {
    let words: [u32; 8] = [
        0x0403_0201,
        0x0807_0605,
        0x0c0b_0a09,
        0x100f_0e0d,
        0x1413_1211,
        0x1817_1615,
        0x1c1b_1a19,
        0x201f_1e1d,
    ];
    let bytes = words_to_bytes_le(&words);
    let mut expected = [0u8; 32];
    for i in 0..8 {
        expected[i * 4..(i + 1) * 4].copy_from_slice(&words[i].to_le_bytes());
    }
    assert_eq!(bytes, expected);
    assert_eq!(bytes[0], 0x01);
    assert_eq!(bytes[1], 0x02);
    assert_eq!(bytes[2], 0x03);
    assert_eq!(bytes[3], 0x04);
    assert_eq!(bytes[31], 0x20);
}

#[test]
fn be_packing_matches_per_word_be_bytes() {
    let words: [u32; 8] = [
        0x0102_0304,
        0x0506_0708,
        0x090a_0b0c,
        0x0d0e_0f10,
        0x1112_1314,
        0x1516_1718,
        0x191a_1b1c,
        0x1d1e_1f20,
    ];
    let bytes = words_to_bytes_be(&words);
    let mut expected = [0u8; 32];
    for i in 0..8 {
        expected[i * 4..(i + 1) * 4].copy_from_slice(&words[i].to_be_bytes());
    }
    assert_eq!(bytes, expected);
    assert_eq!(bytes[0], 0x01);
    assert_eq!(bytes[3], 0x04);
    assert_eq!(bytes[28], 0x1d);
    assert_eq!(bytes[31], 0x20);
}

#[test]
fn le_and_be_packings_differ_on_asymmetric_words() {
    let words: [u32; 8] = [0xdead_beef, 1, 2, 3, 4, 5, 6, 7];
    let le = words_to_bytes_le(&words);
    let be = words_to_bytes_be(&words);
    assert_eq!(le[0..4], [0xef, 0xbe, 0xad, 0xde]);
    assert_eq!(be[0..4], [0xde, 0xad, 0xbe, 0xef]);
    assert_ne!(le, be);
}

#[test]
fn le_round_trip_reproduces_words() {
    let words: [u32; 8] = [
        0xdead_beef,
        0,
        u32::MAX,
        1,
        0x8000_0000,
        0x7fff_ffff,
        42,
        0x0102_0304,
    ];
    let bytes = words_to_bytes_le(&words);
    let mut decoded = [0u32; 8];
    for i in 0..8 {
        let mut chunk = [0u8; 4];
        chunk.copy_from_slice(&bytes[i * 4..(i + 1) * 4]);
        decoded[i] = u32::from_le_bytes(chunk);
    }
    assert_eq!(decoded, words);
}

#[test]
fn be_round_trip_reproduces_words() {
    let words: [u32; 8] = [
        0xdead_beef,
        0,
        u32::MAX,
        1,
        0x8000_0000,
        0x7fff_ffff,
        42,
        0x0102_0304,
    ];
    let bytes = words_to_bytes_be(&words);
    let mut decoded = [0u32; 8];
    for i in 0..8 {
        let mut chunk = [0u8; 4];
        chunk.copy_from_slice(&bytes[i * 4..(i + 1) * 4]);
        decoded[i] = u32::from_be_bytes(chunk);
    }
    assert_eq!(decoded, words);
}
