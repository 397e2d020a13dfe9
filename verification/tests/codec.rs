use aggregation_lib::commit_proof_pairs;
use aggregation_lib::words_to_bytes_le;

#[test]
fn empty_batch_commitment_is_four_zero_bytes() {
    let commitment = commit_proof_pairs(&[], &[]);
    assert_eq!(commitment, vec![0u8, 0, 0, 0]);
}

#[test]
fn commitment_layout_for_two_entries() {
    let k1: [u32; 8] = [1, 0, 0, 0, 0, 0, 0, 0];
    let k2: [u32; 8] = [2, 0, 0, 0, 0, 0, 0, 0];
    let values = vec![b"a".to_vec(), b"bb".to_vec()];
    let commitment = commit_proof_pairs(&[k1, k2], &values);

    let mut expected: Vec<u8> = Vec::new();
    expected.extend_from_slice(&[0, 0, 0, 2]);
    expected.extend_from_slice(&words_to_bytes_le(&k1));
    expected.extend_from_slice(&words_to_bytes_le(&k2));
    expected.extend_from_slice(&[0, 0, 0, 1]);
    expected.extend_from_slice(b"a");
    expected.extend_from_slice(&[0, 0, 0, 2]);
    expected.extend_from_slice(b"bb");
    assert_eq!(commitment, expected);

    // The key block is packed little-endian: word 1 leads with byte 0x01.
    assert_eq!(commitment[4], 0x01);
    assert_eq!(commitment[5], 0x00);
    assert_eq!(commitment[36], 0x02);
}

#[test]
fn commitment_is_deterministic() {
    let keys = [[7u32, 6, 5, 4, 3, 2, 1, 0], [9u32; 8]];
    let values = vec![vec![1u8, 2, 3], Vec::new()];
    let first = commit_proof_pairs(&keys, &values);
    let second = commit_proof_pairs(&keys, &values);
    assert_eq!(first, second);
}

#[test]
fn commitment_length_matches_formula() {
    let keys = [[1u32; 8], [2u32; 8], [3u32; 8]];
    let values = vec![vec![0u8; 5], Vec::new(), vec![0u8; 1000]];
    let commitment = commit_proof_pairs(&keys, &values);
    let framed: usize = values.iter().map(|v| 4 + v.len()).sum();
    assert_eq!(commitment.len(), 4 + 32 * keys.len() + framed);
}

#[test]
fn empty_values_are_framed_with_zero_length() {
    let keys = [[0u32; 8]];
    let values = vec![Vec::new()];
    let commitment = commit_proof_pairs(&keys, &values);
    assert_eq!(commitment.len(), 4 + 32 + 4);
    assert_eq!(&commitment[36..40], &[0, 0, 0, 0]);
}
