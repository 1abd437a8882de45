//! The Keccak-f[1600] permutation on 25 lanes of 64 bits.
//!
//! Lane `i` of the state stands at column `i % 5` and row `i / 5` of the
//! 5 x 5 lane array.
use vstd::prelude::*;

verus! {

/// Number of rounds of Keccak-f[1600].
pub const ROUNDS: usize = 24;

/// Round constants, added to lane 0 in the last step of each round.
pub const RC: [u64; 24] = [
    0x0000000000000001,
    0x0000000000008082,
    0x800000000000808A,
    0x8000000080008000,
    0x000000000000808B,
    0x0000000080000001,
    0x8000000080008081,
    0x8000000000008009,
    0x000000000000008A,
    0x0000000000000088,
    0x0000000080008009,
    0x000000008000000A,
    0x000000008000808B,
    0x800000000000008B,
    0x8000000000008089,
    0x8000000000008003,
    0x8000000000008002,
    0x8000000000000080,
    0x000000000000800A,
    0x800000008000000A,
    0x8000000080008081,
    0x8000000000008080,
    0x0000000080000001,
    0x8000000080008008,
];

/// Rotation amounts of the fused rho and pi steps, in the order of the lane chain.
pub const RHO: [u64; 24] = [
    1, 3, 6, 10, 15, 21, 28, 36, 45, 55, 2, 14, 27, 41, 56, 8, 25, 43, 62, 18, 39, 61, 20, 44,
];

/// Lane positions visited by the fused rho and pi steps, starting after lane 1.
pub const PI: [usize; 24] = [
    10, 7, 11, 17, 18, 3, 5, 16, 8, 21, 24, 4, 15, 23, 19, 13, 12, 2, 20, 14, 22, 9, 6, 1,
];

/// `x` rotated left by `n` bits.
pub open spec fn rotl(x: u64, n: u64) -> u64 {
    (x << n) | (x >> (64 - n) as u64)
}

/// Rotates `x` left by `n` bits.
pub fn rotate_left(x: u64, n: u64) -> (r: u64)
    requires
        0 < n < 64,
    ensures
        r == rotl(x, n),
{
    (x << n) | (x >> (64 - n))
}

/// XOR of the five lanes of column `x`.
pub open spec fn column_parity(a: Seq<u64>, x: int) -> u64 {
    a[x] ^ a[x + 5] ^ a[x + 10] ^ a[x + 15] ^ a[x + 20]
}

/// What the theta step adds to each lane of column `x`.
pub open spec fn theta_effect(a: Seq<u64>, x: int) -> u64 {
    column_parity(a, (x + 4) % 5) ^ rotl(column_parity(a, (x + 1) % 5), 1)
}

/// The theta step.
pub open spec fn theta(a: Seq<u64>) -> Seq<u64> {
    Seq::new(25, |i: int| a[i] ^ theta_effect(a, i % 5))
}

/// Rotation amount of the rho step for the lane at position `i`.
pub open spec fn rho_offset(i: int) -> u64 {
    seq![
        0u64, 1, 62, 28, 27,
        36, 44, 6, 55, 20,
        3, 10, 43, 25, 39,
        41, 45, 15, 21, 8,
        18, 2, 61, 56, 14,
    ][i]
}

/// The position whose lane the pi step moves to position `i`: the lane at
/// column `x`, row `y` moves to column `y`, row `2 * x + 3 * y` (mod 5).
pub open spec fn pi_source(i: int) -> int {
    (i % 5 + 3 * (i / 5)) % 5 + 5 * (i % 5)
}

/// The rho step (rotate each lane by its own amount) followed by the pi step
/// (move each lane to its new position).
pub open spec fn rho_pi(a: Seq<u64>) -> Seq<u64> {
    Seq::new(
        25,
        |i: int|
            if i == 0 {
                a[0]
            } else {
                rotl(a[pi_source(i)], rho_offset(pi_source(i)))
            },
    )
}

/// The chi step, the one non-linear step, row by row.
pub open spec fn chi(a: Seq<u64>) -> Seq<u64> {
    Seq::new(
        25,
        |i: int|
            {
                let row = i - i % 5;
                a[i] ^ (!a[row + (i % 5 + 1) % 5] & a[row + (i % 5 + 2) % 5])
            },
    )
}

/// The iota step of round `r`.
pub open spec fn iota(a: Seq<u64>, r: int) -> Seq<u64> {
    a.update(0, a[0] ^ RC@[r])
}

/// Round `r` of Keccak-f[1600].
pub open spec fn round(a: Seq<u64>, r: int) -> Seq<u64> {
    iota(chi(rho_pi(theta(a))), r)
}

/// The state after the first `n` rounds.
pub open spec fn rounds(a: Seq<u64>, n: nat) -> Seq<u64>
    decreases n,
{
    if n == 0 {
        a
    } else {
        round(rounds(a, (n - 1) as nat), n - 1)
    }
}

/// Keccak-f[1600]: all 24 rounds.
pub open spec fn keccak_f(a: Seq<u64>) -> Seq<u64> {
    rounds(a, 24)
}

/// The step of the fused rho and pi chain at which position `j` is written
/// (24 for lane 0, which the chain never writes).
spec fn chain_step(j: int) -> int {
    seq![24int, 23, 17, 5, 11, 6, 22, 1, 8, 21, 0, 2, 16, 15, 19, 12, 7, 3, 4, 14, 18, 9, 20, 13, 10][j]
}

/// The position whose original lane is carried into step `t` of the chain.
spec fn chain_source(t: int) -> int {
    if t == 0 {
        1
    } else {
        PI@[t - 1] as int
    }
}

proof fn lemma_chain_tables()
    ensures
        forall|t: int| 0 <= t < 24 ==> #[trigger] chain_step(PI@[t] as int) == t,
        forall|t: int| 0 <= t < 24 ==> 0 < #[trigger] PI@[t] < 25,
        forall|t: int| 0 <= t < 24 ==> 0 < #[trigger] RHO@[t] < 64,
        forall|j: int|
            #![trigger chain_step(j)]
            1 <= j < 25 ==> {
                let t = chain_step(j);
                &&& 0 <= t < 24
                &&& PI@[t] == j
                &&& chain_source(t) == pi_source(j)
                &&& RHO@[t] == rho_offset(pi_source(j))
            },
        chain_step(0) == 24,
{
    assert forall|t: int| 0 <= t < 24 implies chain_step(PI@[t] as int) == t && 0 < PI@[t] < 25
        && 0 < RHO@[t] < 64 by {
        assert(t == 0 || t == 1 || t == 2 || t == 3 || t == 4 || t == 5 || t == 6 || t == 7 || t == 8 || t == 9 || t == 10 || t == 11 || t == 12 || t == 13 || t == 14 || t == 15 || t == 16 || t == 17 || t == 18 || t == 19 || t == 20 || t == 21 || t == 22 || t == 23);
    }
    assert forall|j: int| 1 <= j < 25 implies {
        let t = #[trigger] chain_step(j);
        &&& 0 <= t < 24
        &&& PI@[t] == j
        &&& chain_source(t) == pi_source(j)
        &&& RHO@[t] == rho_offset(pi_source(j))
    } by {
        assert(j == 1 || j == 2 || j == 3 || j == 4 || j == 5 || j == 6 || j == 7 || j == 8 || j == 9 || j == 10 || j == 11 || j == 12 || j == 13 || j == 14 || j == 15 || j == 16 || j == 17 || j == 18 || j == 19 || j == 20 || j == 21 || j == 22 || j == 23 || j == 24);
    }
}

/// Applies the theta step in place.
fn theta_step(a: &mut [u64; 25])
    ensures
        final(a)@ == theta(old(a)@),
{
    let ghost a0 = a@;
    let mut c = [0u64; 5];
    let mut x: usize = 0;
    while x < 5
        invariant
            x <= 5,
            a@ == a0,
            forall|k: int| 0 <= k < x ==> c@[k] == column_parity(a0, k),
        decreases 5 - x,
    {
        c[x] = a[x] ^ a[x + 5] ^ a[x + 10] ^ a[x + 15] ^ a[x + 20];
        x = x + 1;
    }
    let mut d = [0u64; 5];
    x = 0;
    while x < 5
        invariant
            x <= 5,
            a@ == a0,
            forall|k: int| 0 <= k < 5 ==> c@[k] == column_parity(a0, k),
            forall|k: int| 0 <= k < x ==> d@[k] == theta_effect(a0, k),
        decreases 5 - x,
    {
        d[x] = c[(x + 4) % 5] ^ rotate_left(c[(x + 1) % 5], 1);
        x = x + 1;
    }
    let mut i: usize = 0;
    while i < 25
        invariant
            i <= 25,
            forall|k: int| 0 <= k < 5 ==> d@[k] == theta_effect(a0, k),
            forall|j: int| 0 <= j < i ==> a@[j] == a0[j] ^ theta_effect(a0, j % 5),
            forall|j: int| i <= j < 25 ==> a@[j] == a0[j],
        decreases 25 - i,
    {
        a[i] = a[i] ^ d[i % 5];
        i = i + 1;
    }
    assert(a@ =~= theta(a0));
}

/// Applies the rho and pi steps in place, walking the lane chain with a
/// single carried lane.
fn rho_pi_step(a: &mut [u64; 25])
    ensures
        final(a)@ == rho_pi(old(a)@),
{
    let ghost a0 = a@;
    proof {
        lemma_chain_tables();
    }
    let mut last = a[1];
    let mut t: usize = 0;
    while t < 24
        invariant
            t <= 24,
            last == a0[chain_source(t as int)],
            forall|j: int|
                0 <= j < 25 && chain_step(j) < t ==> a@[j] == rotl(
                    a0[chain_source(chain_step(j))],
                    RHO@[chain_step(j)],
                ),
            forall|j: int| 0 <= j < 25 && chain_step(j) >= t ==> a@[j] == a0[j],
        decreases 24 - t,
    {
        proof {
            lemma_chain_tables();
        }
        let p = PI[t];
        let saved = a[p];
        a[p] = rotate_left(last, RHO[t]);
        last = saved;
        t = t + 1;
    }
    proof {
        lemma_chain_tables();
    }
    assert(a@ =~= rho_pi(a0));
}

/// Applies the chi step in place.
fn chi_step(a: &mut [u64; 25])
    ensures
        final(a)@ == chi(old(a)@),
{
    let b = *a;
    let mut i: usize = 0;
    while i < 25
        invariant
            i <= 25,
            forall|j: int| 0 <= j < i ==> a@[j] == chi(b@)[j],
        decreases 25 - i,
    {
        let row = i - i % 5;
        a[i] = b[i] ^ (!b[row + (i % 5 + 1) % 5] & b[row + (i % 5 + 2) % 5]);
        i = i + 1;
    }
    assert(a@ =~= chi(b@));
}

/// Applies the 24 rounds of Keccak-f[1600] to the lanes in place.
pub fn keccak_f1600(a: &mut [u64; 25])
    ensures
        final(a)@ == keccak_f(old(a)@),
{
    let ghost a0 = a@;
    let mut r: usize = 0;
    while r < ROUNDS
        invariant
            r <= 24,
            a@ == rounds(a0, r as nat),
        decreases 24 - r,
    {
        let ghost before = a@;
        theta_step(a);
        rho_pi_step(a);
        chi_step(a);
        a[0] = a[0] ^ RC[r];
        assert(a@ =~= round(before, r as int));
        r = r + 1;
    }
}

} // verus!
