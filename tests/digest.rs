use keccak_rs::keccak_256;
use tiny_keccak::Hasher;
use tiny_keccak::Keccak;

fn reference_keccak_256(input: &[u8]) -> [u8; 32] {
    let mut hasher = Keccak::v256();
    hasher.update(input);
    let mut output: [u8; 32] = [0; 32];
    hasher.finalize(&mut output);
    output
}

fn bytes_of_length(n: usize) -> Vec<u8> {
    (0..n).map(|i| (i * 31 + 7) as u8).collect()
}

#[test]
fn test_mini() {
    let hex = b"ABCD";
    let mut expected_hasher = Keccak::v256();
    expected_hasher.update(hex);
    let mut expected: [u8; 32] = [0; 32];
    expected_hasher.finalize(&mut expected);

    let actual = keccak_256(hex);

    assert_eq!(expected, actual);
}

#[test]
fn test_short() {
    let hex = b"ABCDABCDABCDABCDABCDABCDABCDABCDABCDABCDABCDABCDABCDABCDABCDABCDABCDABCDABCDABCDABCDABCDABCDABCDABCDABCDABCDABCDABCDABCDABCDABCDABCDABCDABCD";
    let mut expected_hasher = Keccak::v256();
    expected_hasher.update(hex);
    let mut expected: [u8; 32] = [0; 32];
    expected_hasher.finalize(&mut expected);

    let actual = keccak_256(hex);

    assert_eq!(expected, actual);
}

#[test]
fn test_long() {
    for _ in 0..100 {
        let hex: Vec<u8> = (0..10_000).map(|_| rand::random::<u8>()).collect();
        let mut expected_hasher = Keccak::v256();
        expected_hasher.update(hex.as_slice());
        let mut expected: [u8; 32] = [0; 32];
        expected_hasher.finalize(&mut expected);

        let actual = keccak_256(hex.as_slice());

        assert_eq!(expected, actual);
    }
}

#[test]
fn empty_input_digest() {
    let expected: [u8; 32] = [
        0xc5, 0xd2, 0x46, 0x01, 0x86, 0xf7, 0x23, 0x3c, 0x92, 0x7e, 0x7d, 0xb2, 0xdc, 0xc7, 0x03,
        0xc0, 0xe5, 0x00, 0xb6, 0x53, 0xca, 0x82, 0x27, 0x3b, 0x7b, 0xfa, 0xd8, 0x04, 0x5d, 0x85,
        0xa4, 0x70,
    ];
    assert_eq!(keccak_256(&[]), expected);
    assert_eq!(reference_keccak_256(&[]), expected);
}

#[test]
fn matches_reference_at_block_boundaries() {
    for n in [0usize, 1, 135, 136, 137, 271, 272, 273] {
        let input = bytes_of_length(n);
        assert_eq!(keccak_256(&input), reference_keccak_256(&input), "length {}", n);
    }
}

#[test]
fn matches_reference_on_random_kilobytes() {
    for n in [1024usize, 4096, 8191] {
        let input: Vec<u8> = (0..n).map(|_| rand::random::<u8>()).collect();
        assert_eq!(keccak_256(&input), reference_keccak_256(&input));
    }
}

#[test]
fn full_block_gets_padding_permutation() {
    let input = vec![0x61u8; 136];
    let digest = keccak_256(&input);
    assert_eq!(digest, reference_keccak_256(&input));
    assert_ne!(digest, keccak_256(&input[..135]));
}

#[test]
fn suffix_and_final_bit_share_a_byte() {
    let input = vec![0xffu8; 135];
    assert_eq!(keccak_256(&input), reference_keccak_256(&input));
}

#[test]
fn digest_is_deterministic() {
    let input = bytes_of_length(500);
    assert_eq!(keccak_256(&input), keccak_256(&input));
}

#[test]
fn one_changed_byte_changes_digest() {
    assert_ne!(keccak_256(b"ABCD"), keccak_256(b"ABCE"));
    let a = bytes_of_length(300);
    let mut b = a.clone();
    b[150] ^= 1;
    assert_ne!(keccak_256(&a), keccak_256(&b));
}
