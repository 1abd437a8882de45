//! Conversion between the 200-byte Keccak state and its 25 little-endian lanes.
use vstd::prelude::*;

verus! {

/// Number of bytes in the Keccak-f[1600] state.
pub const STATE_BYTES: usize = 200;

/// Number of 64-bit lanes in the Keccak-f[1600] state.
pub const LANES: usize = 25;

/// The 64-bit word whose little-endian bytes are `b0, ..., b7`.
pub open spec fn le_u64(b0: u8, b1: u8, b2: u8, b3: u8, b4: u8, b5: u8, b6: u8, b7: u8) -> u64 {
    (b0 as u64) | ((b1 as u64) << 8u64) | ((b2 as u64) << 16u64) | ((b3 as u64) << 24u64)
        | ((b4 as u64) << 32u64) | ((b5 as u64) << 40u64) | ((b6 as u64) << 48u64)
        | ((b7 as u64) << 56u64)
}

/// Byte `k` (counted from the least significant end) of `x`.
pub open spec fn byte_of(x: u64, k: int) -> u8 {
    (x >> ((8 * k) as u64)) as u8
}

/// Lane `i` of a byte state: bytes `8 * i .. 8 * i + 8`, little-endian.
pub open spec fn lane_from_bytes(b: Seq<u8>, i: int) -> u64 {
    le_u64(
        b[8 * i],
        b[8 * i + 1],
        b[8 * i + 2],
        b[8 * i + 3],
        b[8 * i + 4],
        b[8 * i + 5],
        b[8 * i + 6],
        b[8 * i + 7],
    )
}

/// The 25 lanes held by a 200-byte state.
pub open spec fn lanes_of_bytes(b: Seq<u8>) -> Seq<u64> {
    Seq::new(25, |i: int| lane_from_bytes(b, i))
}

/// The 200 bytes of a 25-lane state: byte `i` is byte `i % 8` of lane `i / 8`.
pub open spec fn bytes_of_lanes(l: Seq<u64>) -> Seq<u8> {
    Seq::new(200, |i: int| byte_of(l[i / 8], i % 8))
}

proof fn lemma_bytes_of_le_u64(b0: u8, b1: u8, b2: u8, b3: u8, b4: u8, b5: u8, b6: u8, b7: u8)
    by (bit_vector)
    ensures
        byte_of(le_u64(b0, b1, b2, b3, b4, b5, b6, b7), 0) == b0,
        byte_of(le_u64(b0, b1, b2, b3, b4, b5, b6, b7), 1) == b1,
        byte_of(le_u64(b0, b1, b2, b3, b4, b5, b6, b7), 2) == b2,
        byte_of(le_u64(b0, b1, b2, b3, b4, b5, b6, b7), 3) == b3,
        byte_of(le_u64(b0, b1, b2, b3, b4, b5, b6, b7), 4) == b4,
        byte_of(le_u64(b0, b1, b2, b3, b4, b5, b6, b7), 5) == b5,
        byte_of(le_u64(b0, b1, b2, b3, b4, b5, b6, b7), 6) == b6,
        byte_of(le_u64(b0, b1, b2, b3, b4, b5, b6, b7), 7) == b7,
{
}

proof fn lemma_le_u64_of_bytes(x: u64)
    by (bit_vector)
    ensures
        le_u64(
            byte_of(x, 0),
            byte_of(x, 1),
            byte_of(x, 2),
            byte_of(x, 3),
            byte_of(x, 4),
            byte_of(x, 5),
            byte_of(x, 6),
            byte_of(x, 7),
        ) == x,
{
}

/// Converting a 200-byte state to lanes and back gives the same bytes.
pub proof fn lemma_lanes_round_trip(b: Seq<u8>)
    requires
        b.len() == 200,
    ensures
        bytes_of_lanes(lanes_of_bytes(b)) == b,
{
    assert forall|i: int| 0 <= i < 200 implies #[trigger] bytes_of_lanes(lanes_of_bytes(b))[i]
        == b[i] by {
        let q = i / 8;
        lemma_bytes_of_le_u64(
            b[8 * q],
            b[8 * q + 1],
            b[8 * q + 2],
            b[8 * q + 3],
            b[8 * q + 4],
            b[8 * q + 5],
            b[8 * q + 6],
            b[8 * q + 7],
        );
    }
    assert(bytes_of_lanes(lanes_of_bytes(b)) =~= b);
}

/// Converting 25 lanes to bytes and back gives the same lanes.
pub proof fn lemma_bytes_round_trip(l: Seq<u64>)
    requires
        l.len() == 25,
    ensures
        lanes_of_bytes(bytes_of_lanes(l)) == l,
{
    assert forall|i: int| 0 <= i < 25 implies #[trigger] lanes_of_bytes(bytes_of_lanes(l))[i]
        == l[i] by {
        let b = bytes_of_lanes(l);
        assert(b[8 * i] == byte_of(l[i], 0));
        assert(b[8 * i + 1] == byte_of(l[i], 1));
        assert(b[8 * i + 2] == byte_of(l[i], 2));
        assert(b[8 * i + 3] == byte_of(l[i], 3));
        assert(b[8 * i + 4] == byte_of(l[i], 4));
        assert(b[8 * i + 5] == byte_of(l[i], 5));
        assert(b[8 * i + 6] == byte_of(l[i], 6));
        assert(b[8 * i + 7] == byte_of(l[i], 7));
        lemma_le_u64_of_bytes(l[i]);
    }
    assert(lanes_of_bytes(bytes_of_lanes(l)) =~= l);
}

/// Reads the state's 25 lanes, each from 8 bytes in little-endian order.
pub fn bytes_to_lanes(bytes: [u8; 200]) -> (lanes: [u64; 25])
    ensures
        lanes@ == lanes_of_bytes(bytes@),
{
    let mut lanes = [0u64; 25];
    let mut i: usize = 0;
    while i < LANES
        invariant
            i <= 25,
            forall|j: int| 0 <= j < i ==> lanes@[j] == lane_from_bytes(bytes@, j),
        decreases 25 - i,
    {
        let base = 8 * i;
        lanes[i] = (bytes[base] as u64) | ((bytes[base + 1] as u64) << 8u64) | ((bytes[base
            + 2] as u64) << 16u64) | ((bytes[base + 3] as u64) << 24u64) | ((bytes[base
            + 4] as u64) << 32u64) | ((bytes[base + 5] as u64) << 40u64) | ((bytes[base
            + 6] as u64) << 48u64) | ((bytes[base + 7] as u64) << 56u64);
        i = i + 1;
    }
    assert(lanes@ =~= lanes_of_bytes(bytes@));
    lanes
}

/// Writes the 25 lanes out as 200 bytes, each lane in little-endian order.
pub fn lanes_to_bytes(lanes: [u64; 25]) -> (bytes: [u8; 200])
    ensures
        bytes@ == bytes_of_lanes(lanes@),
{
    let mut bytes = [0u8; 200];
    let mut i: usize = 0;
    while i < STATE_BYTES
        invariant
            i <= 200,
            forall|j: int| 0 <= j < i ==> bytes@[j] == byte_of(lanes@[j / 8], j % 8),
        decreases 200 - i,
    {
        bytes[i] = (lanes[i / 8] >> ((8 * (i % 8)) as u64)) as u8;
        i = i + 1;
    }
    assert(bytes@ =~= bytes_of_lanes(lanes@));
    bytes
}

} // verus!
