use keccak_rs::keccak;

#[test]
fn sha3_256_suffix_on_empty_input() {
    let expected: [u8; 32] = [
        0xa7, 0xff, 0xc6, 0xf8, 0xbf, 0x1e, 0xd7, 0x66, 0x51, 0xc1, 0x47, 0x56, 0xa0, 0x61, 0xd6,
        0x62, 0xf5, 0x80, 0xff, 0x4d, 0xe4, 0x3b, 0x49, 0xfa, 0x82, 0xd8, 0x0a, 0x4b, 0x80, 0xf8,
        0x43, 0x4a,
    ];
    assert_eq!(keccak(1088, 512, &[], 0x06), expected);
}

#[test]
fn ethereum_suffix_through_general_sponge() {
    assert_eq!(keccak(1088, 512, b"ABCD", 0x01), keccak_rs::keccak_256(b"ABCD"));
}

#[test]
fn suffix_changes_digest() {
    assert_ne!(keccak(1088, 512, b"ABCD", 0x01), keccak(1088, 512, b"ABCD", 0x06));
}
