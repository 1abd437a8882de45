use keccak_rs::{bytes_to_lanes, keccak_f1600, keccak_f1600_state, lanes_to_bytes, rotate_left};

#[test]
fn permutation_of_zero_state() {
    let mut lanes = [0u64; 25];
    keccak_f1600(&mut lanes);
    assert_ne!(lanes, [0u64; 25]);
    assert_eq!(lanes[0], 0xF1258F7940E1DDE7);
    assert_eq!(lanes[1], 0x84D5CCF933C0478A);
}

#[test]
fn permutation_of_nonzero_state_moves() {
    let mut lanes = [0u64; 25];
    for (i, lane) in lanes.iter_mut().enumerate() {
        *lane = (i as u64) * 0x0101_0101_0101_0101;
    }
    let before = lanes;
    keccak_f1600(&mut lanes);
    assert_ne!(lanes, before);
    let mut again = before;
    keccak_f1600(&mut again);
    assert_eq!(again, lanes);
}

#[test]
fn byte_state_permutation_matches_lane_permutation() {
    let mut state = [0u8; 200];
    for (i, b) in state.iter_mut().enumerate() {
        *b = (i * 13 + 5) as u8;
    }
    let mut lanes = bytes_to_lanes(state);
    keccak_f1600(&mut lanes);
    keccak_f1600_state(&mut state);
    assert_eq!(state, lanes_to_bytes(lanes));
}

#[test]
fn lanes_are_little_endian() {
    let mut bytes = [0u8; 200];
    for (i, b) in bytes.iter_mut().enumerate() {
        *b = (i + 1) as u8;
    }
    let lanes = bytes_to_lanes(bytes);
    assert_eq!(lanes[0], 0x0807060504030201);
    assert_eq!(lanes[24], 0xC8C7C6C5C4C3C2C1);
}

#[test]
fn lane_conversion_round_trip() {
    let mut bytes = [0u8; 200];
    for (i, b) in bytes.iter_mut().enumerate() {
        *b = (i * 97 + 3) as u8;
    }
    assert_eq!(lanes_to_bytes(bytes_to_lanes(bytes)), bytes);
    let lanes = bytes_to_lanes(bytes);
    assert_eq!(bytes_to_lanes(lanes_to_bytes(lanes)), lanes);
}

#[test]
fn rotation() {
    assert_eq!(rotate_left(0x8000_0000_0000_0001, 1), 3);
    assert_eq!(rotate_left(0x0123_4567_89AB_CDEF, 8), 0x2345_6789_ABCD_EF01);
    assert_eq!(rotate_left(1, 63), 0x8000_0000_0000_0000);
}
