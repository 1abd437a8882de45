//! The sponge construction over Keccak-f[1600]: absorbing, padding and squeezing.
use vstd::prelude::*;
use vstd::arithmetic::div_mod::lemma_fundamental_div_mod_converse;
use crate::lanes::{bytes_of_lanes, bytes_to_lanes, lanes_of_bytes, lanes_to_bytes, STATE_BYTES};
use crate::permutation::{keccak_f, keccak_f1600};

verus! {

/// Number of bytes in a digest.
pub const DIGEST_BYTES: usize = 32;

/// The permutation applied to a 200-byte state through its lanes.
pub open spec fn permute_bytes(s: Seq<u8>) -> Seq<u8> {
    bytes_of_lanes(keccak_f(lanes_of_bytes(s)))
}

/// `state` with `block` XORed into its prefix, byte for byte.
pub open spec fn xor_into(state: Seq<u8>, block: Seq<u8>) -> Seq<u8> {
    Seq::new(state.len(), |i: int| if i < block.len() { state[i] ^ block[i] } else { state[i] })
}

/// The state after absorbing the first `n` full blocks of `byte_rate` bytes
/// of `input`, starting from the all-zero state.
pub open spec fn absorbed(input: Seq<u8>, byte_rate: nat, n: nat) -> Seq<u8>
    decreases n,
{
    if n == 0 {
        Seq::new(200, |i: int| 0u8)
    } else {
        permute_bytes(
            xor_into(
                absorbed(input, byte_rate, (n - 1) as nat),
                input.subrange((n - 1) * byte_rate, (n * byte_rate) as int),
            ),
        )
    }
}

/// Multi-rate padding: the suffix byte at the first unused position, then
/// the final bit at the top of the rate window.
pub open spec fn pad(state: Seq<u8>, block_size: int, byte_rate: int, suffix: u8) -> Seq<u8> {
    let s = state.update(block_size, state[block_size] ^ suffix);
    s.update(byte_rate - 1, s[byte_rate - 1] ^ 0x80u8)
}

/// The 32-byte digest of `input` by a sponge of `byte_rate` bytes of rate and
/// domain suffix `suffix`: every full block is absorbed and permuted, the
/// remaining bytes (possibly none) are absorbed and padded, the state is
/// permuted once more, and its first 32 bytes are the digest.
pub open spec fn sponge_digest(byte_rate: nat, input: Seq<u8>, suffix: u8) -> Seq<u8> {
    let n = input.len() / byte_rate;
    let tail = input.subrange((n * byte_rate) as int, input.len() as int);
    permute_bytes(
        pad(xor_into(absorbed(input, byte_rate, n), tail), tail.len() as int, byte_rate as int, suffix),
    ).take(32)
}

/// The Keccak-256 digest (rate 1088 bits, capacity 512 bits, suffix `0x01`).
pub open spec fn keccak_256_digest(input: Seq<u8>) -> Seq<u8> {
    sponge_digest(136, input, 0x01)
}

/// Applies Keccak-f[1600] to a 200-byte state, read as 25 little-endian lanes.
pub fn keccak_f1600_state(state: &mut [u8; 200])
    ensures
        final(state)@ == permute_bytes(old(state)@),
{
    let mut lanes = bytes_to_lanes(*state);
    keccak_f1600(&mut lanes);
    *state = lanes_to_bytes(lanes);
}

/// The sponge construction with a rate of `rate` bits, a capacity of
/// `capacity` bits and the domain suffix `delimited_suffix`; it returns the
/// first 32 bytes of the final state.
pub fn keccak(rate: usize, capacity: usize, input: &[u8], delimited_suffix: u8) -> (r: [u8; 32])
    requires
        0 < rate,
        rate + capacity == 1600,
        rate % 8 == 0,
    ensures
        r@ == sponge_digest((rate / 8) as nat, input@, delimited_suffix),
{
    let mut state = [0u8; 200];
    let byte_rate = rate / 8;
    let ghost br = byte_rate as nat;
    let ghost mut nb: nat = 0;
    let mut input_offset: usize = 0;
    let mut block_size: usize = 0;
    assert(state@ =~= xor_into(absorbed(input@, br, 0), input@.subrange(0, 0)));
    while input_offset < input.len()
        invariant
            byte_rate == br,
            0 < br <= 200,
            input_offset <= input.len(),
            block_size < br,
            input_offset == nb * br + block_size,
            block_size > 0 ==> input_offset == input.len(),
            state@ == xor_into(absorbed(input@, br, nb), input@.subrange((nb * br) as int, input_offset as int)),
        decreases input.len() - input_offset,
    {
        let ghost start = absorbed(input@, br, nb);
        assert(state@ =~= start);
        block_size = if input.len() - input_offset < byte_rate {
            input.len() - input_offset
        } else {
            byte_rate
        };
        let mut i: usize = 0;
        while i < block_size
            invariant
                block_size <= br <= 200,
                input_offset + block_size <= input.len(),
                i <= block_size,
                forall|j: int| 0 <= j < i ==> state@[j] == start[j] ^ input@[input_offset + j],
                forall|j: int| i <= j < 200 ==> state@[j] == start[j],
            decreases block_size - i,
        {
            state[i] = state[i] ^ input[i + input_offset];
            i = i + 1;
        }
        assert(state@ =~= xor_into(start, input@.subrange((nb * br) as int, input_offset + block_size)));
        input_offset = input_offset + block_size;
        if block_size == byte_rate {
            keccak_f1600_state(&mut state);
            block_size = 0;
            proof {
                assert((nb + 1) * br == nb * br + br) by (nonlinear_arith);
                nb = nb + 1;
                assert(state@ =~= xor_into(absorbed(input@, br, nb), input@.subrange((nb * br) as int, input_offset as int)));
            }
        }
    }
    proof {
        lemma_fundamental_div_mod_converse(input@.len() as int, br as int, nb as int, block_size as int);
    }
    state[block_size] = state[block_size] ^ delimited_suffix;
    state[byte_rate - 1] = state[byte_rate - 1] ^ 0x80;
    keccak_f1600_state(&mut state);
    let mut output = [0u8; 32];
    let mut i: usize = 0;
    while i < DIGEST_BYTES
        invariant
            i <= 32,
            forall|j: int| 0 <= j < i ==> output@[j] == state@[j],
        decreases 32 - i,
    {
        output[i] = state[i];
        i = i + 1;
    }
    assert(output@ =~= state@.take(32));
    output
}

/// The Keccak-256 digest of `input`, as used by Ethereum.
pub fn keccak_256(input: &[u8]) -> (r: [u8; 32])
    ensures
        r@ == keccak_256_digest(input@),
{
    keccak(1088, 512, input, 0x01)
}

/// Digests are deterministic: any two digests computed from the same input
/// are the same bytes.
pub proof fn lemma_keccak_256_deterministic(x: Seq<u8>, d1: Seq<u8>, d2: Seq<u8>)
    requires
        d1 == keccak_256_digest(x),
        d2 == keccak_256_digest(x),
    ensures
        d1 == d2,
{
}

/// When the input fills a whole number of blocks, every block is absorbed and
/// permuted, and the padding still gets a permutation of its own, applied to
/// a state into which no input byte is XORed after the last full block.
pub proof fn lemma_aligned_input_padding(x: Seq<u8>)
    requires
        x.len() % 136 == 0,
    ensures
        keccak_256_digest(x) == permute_bytes(
            pad(absorbed(x, 136, x.len() / 136), 0, 136, 0x01),
        ).take(32),
{
    let n = x.len() / 136;
    assert(n * 136 == x.len());
    let tail = x.subrange((n * 136) as int, x.len() as int);
    assert(xor_into(absorbed(x, 136, n), tail) =~= absorbed(x, 136, n));
}

} // verus!
