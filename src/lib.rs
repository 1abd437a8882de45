//! Keccak-256 digest (the Ethereum variant, domain suffix `0x01`), with the
//! Keccak-f[1600] permutation and the sponge construction verified against a
//! mathematical model.

pub mod lanes;
pub mod permutation;
pub mod sponge;

pub use lanes::{bytes_to_lanes, lanes_to_bytes};
pub use permutation::{keccak_f1600, rotate_left};
pub use sponge::{keccak, keccak_256, keccak_f1600_state};
