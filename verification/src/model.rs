//! Mathematical model of the Keccak sponge: the 25-lane state, the
//! Keccak-f[1600] permutation, block absorption, padding, and the digest,
//! all as spec functions over sequences.
use vstd::prelude::*;

verus! {

/// Left rotation of a 64-bit lane by `n` positions.
pub open spec fn rotl64(x: u64, n: u64) -> u64
    recommends
        n < 64,
{
    if n == 0 {
        x
    } else {
        (x << n) | (x >> ((64 - n) as u64))
    }
}

/// The all-zero 25-lane state that every sponge starts from.
pub open spec fn zero_state() -> Seq<u64> {
    Seq::new(25, |i: int| 0u64)
}

/// XOR parity of column `x` of the 5x5 lane grid.
pub open spec fn theta_c(s: Seq<u64>, x: int) -> u64 {
    s[x] ^ s[x + 5] ^ s[x + 10] ^ s[x + 15] ^ s[x + 20]
}

/// The value theta XORs into every lane of column `x`.
pub open spec fn theta_d(s: Seq<u64>, x: int) -> u64 {
    theta_c(s, (x + 4) % 5) ^ rotl64(theta_c(s, (x + 1) % 5), 1)
}

/// Theta step: each lane absorbs the parity of its two neighbour columns.
pub open spec fn theta(s: Seq<u64>) -> Seq<u64> {
    Seq::new(25, |i: int| s[i] ^ theta_d(s, i % 5))
}

/// Which lane of the input state ends up at position `i` after rho+pi.
pub open spec fn pi_source(i: int) -> int {
    if i == 0 { 0 }
    else if i == 1 { 6 }
    else if i == 2 { 12 }
    else if i == 3 { 18 }
    else if i == 4 { 24 }
    else if i == 5 { 3 }
    else if i == 6 { 9 }
    else if i == 7 { 10 }
    else if i == 8 { 16 }
    else if i == 9 { 22 }
    else if i == 10 { 1 }
    else if i == 11 { 7 }
    else if i == 12 { 13 }
    else if i == 13 { 19 }
    else if i == 14 { 20 }
    else if i == 15 { 4 }
    else if i == 16 { 5 }
    else if i == 17 { 11 }
    else if i == 18 { 17 }
    else if i == 19 { 23 }
    else if i == 20 { 2 }
    else if i == 21 { 8 }
    else if i == 22 { 14 }
    else if i == 23 { 15 }
    else { 21 }
}

/// Rotation amount applied to the lane that comes to rest at position `i`.
pub open spec fn rho_amount(i: int) -> u64 {
    if i == 0 { 0 }
    else if i == 1 { 44 }
    else if i == 2 { 43 }
    else if i == 3 { 21 }
    else if i == 4 { 14 }
    else if i == 5 { 28 }
    else if i == 6 { 20 }
    else if i == 7 { 3 }
    else if i == 8 { 45 }
    else if i == 9 { 61 }
    else if i == 10 { 1 }
    else if i == 11 { 6 }
    else if i == 12 { 25 }
    else if i == 13 { 8 }
    else if i == 14 { 18 }
    else if i == 15 { 27 }
    else if i == 16 { 36 }
    else if i == 17 { 10 }
    else if i == 18 { 15 }
    else if i == 19 { 56 }
    else if i == 20 { 62 }
    else if i == 21 { 55 }
    else if i == 22 { 39 }
    else if i == 23 { 41 }
    else { 2 }
}

/// Fused rho+pi step: a fixed relocation of the 25 lanes, each rotated by a
/// fixed amount.
pub open spec fn rho_pi(s: Seq<u64>) -> Seq<u64> {
    Seq::new(25, |i: int| rotl64(s[pi_source(i)], rho_amount(i)))
}

/// Chi step: within each row of 5 lanes, lane i becomes
/// `lane[i] ^ (lane[i+2] & !lane[i+1])` over the row's pre-step values.
pub open spec fn chi(s: Seq<u64>) -> Seq<u64> {
    Seq::new(
        25,
        |i: int| s[i] ^ (s[(i / 5) * 5 + (i + 2) % 5] & !s[(i / 5) * 5 + (i + 1) % 5]),
    )
}

/// Round constant XORed into lane 0 by the iota step of round `r`.
pub open spec fn round_constant(r: int) -> u64 {
    if r == 0 { 0x0000000000000001u64 }
    else if r == 1 { 0x0000000000008082u64 }
    else if r == 2 { 0x800000000000808au64 }
    else if r == 3 { 0x8000000080008000u64 }
    else if r == 4 { 0x000000000000808bu64 }
    else if r == 5 { 0x0000000080000001u64 }
    else if r == 6 { 0x8000000080008081u64 }
    else if r == 7 { 0x8000000000008009u64 }
    else if r == 8 { 0x000000000000008au64 }
    else if r == 9 { 0x0000000000000088u64 }
    else if r == 10 { 0x0000000080008009u64 }
    else if r == 11 { 0x000000008000000au64 }
    else if r == 12 { 0x000000008000808bu64 }
    else if r == 13 { 0x800000000000008bu64 }
    else if r == 14 { 0x8000000000008089u64 }
    else if r == 15 { 0x8000000000008003u64 }
    else if r == 16 { 0x8000000000008002u64 }
    else if r == 17 { 0x8000000000000080u64 }
    else if r == 18 { 0x000000000000800au64 }
    else if r == 19 { 0x800000008000000au64 }
    else if r == 20 { 0x8000000080008081u64 }
    else if r == 21 { 0x8000000000008080u64 }
    else if r == 22 { 0x0000000080000001u64 }
    else { 0x8000000080008008u64 }
}

/// Iota step of round `r`: XOR the round constant into lane 0.
pub open spec fn iota(s: Seq<u64>, r: int) -> Seq<u64> {
    s.update(0, s[0] ^ round_constant(r))
}

/// One full round of Keccak-f[1600].
pub open spec fn keccak_round(s: Seq<u64>, r: int) -> Seq<u64> {
    iota(chi(rho_pi(theta(s))), r)
}

/// The first `n` rounds of Keccak-f[1600], applied in order.
pub open spec fn keccak_rounds(s: Seq<u64>, n: int) -> Seq<u64>
    decreases n,
{
    if n <= 0 {
        s
    } else {
        keccak_round(keccak_rounds(s, n - 1), n - 1)
    }
}

/// The Keccak-f[1600] permutation: 24 rounds.
pub open spec fn keccak_f(s: Seq<u64>) -> Seq<u64> {
    keccak_rounds(s, 24)
}

/// Lane `w` of a byte block, read little-endian.
pub open spec fn lane_at(block: Seq<u8>, w: int) -> u64 {
    (block[8 * w] as u64)
    | ((block[8 * w + 1] as u64) << 8u64)
    | ((block[8 * w + 2] as u64) << 16u64)
    | ((block[8 * w + 3] as u64) << 24u64)
    | ((block[8 * w + 4] as u64) << 32u64)
    | ((block[8 * w + 5] as u64) << 40u64)
    | ((block[8 * w + 6] as u64) << 48u64)
    | ((block[8 * w + 7] as u64) << 56u64)
}

/// XOR a rate-sized byte block into the rate-covering prefix of the lanes;
/// the capacity lanes beyond the block are untouched.
pub open spec fn xor_lanes(s: Seq<u64>, block: Seq<u8>) -> Seq<u64> {
    Seq::new(25, |i: int| if 8 * i + 8 <= block.len() { s[i] ^ lane_at(block, i) } else { s[i] })
}

/// Absorb one rate-sized block: XOR it into the state, then permute.
pub open spec fn absorb_block(s: Seq<u64>, block: Seq<u8>) -> Seq<u64> {
    keccak_f(xor_lanes(s, block))
}

/// Absorb every complete rate-sized block at the front of `input`; the final
/// partial block (if any) is left for the padding step.
pub open spec fn absorb_blocks(s: Seq<u64>, input: Seq<u8>, rate: int) -> Seq<u64>
    decreases input.len(),
{
    if rate <= 0 || input.len() < rate {
        s
    } else {
        absorb_blocks(absorb_block(s, input.take(rate)), input.skip(rate), rate)
    }
}

/// The lane state of a sponge that has absorbed the full blocks of `input`.
pub open spec fn sponge_state(input: Seq<u8>, rate: int) -> Seq<u64> {
    absorb_blocks(zero_state(), input, rate)
}

/// The tail of `input` after its last complete block: the bytes still
/// buffered, always shorter than the rate.
pub open spec fn pending_of(input: Seq<u8>, rate: int) -> Seq<u8> {
    input.skip(input.len() - (input.len() as int) % rate)
}

/// pad10*1 over a full rate-sized block: a 0x01 marker right after the tail,
/// zeros up to the last byte, whose top bit is set (0x81 when the two
/// positions coincide).
pub open spec fn pad_block(tail: Seq<u8>, rate: int) -> Seq<u8>
    recommends
        tail.len() < rate,
{
    Seq::new(
        rate as nat,
        |i: int|
            {
                let b: u8 = if i < tail.len() {
                    tail[i]
                } else if i == tail.len() {
                    0x01u8
                } else {
                    0x00u8
                };
                if i == rate - 1 {
                    b | 0x80u8
                } else {
                    b
                }
            },
    )
}

/// Byte `k` of a lane, little-endian.
pub open spec fn lane_byte(x: u64, k: int) -> u8 {
    ((x >> ((8 * k) as u64)) & 0xff) as u8
}

/// The 200-byte little-endian view of the 25-lane state.
pub open spec fn state_bytes(s: Seq<u64>) -> Seq<u8> {
    Seq::new(200, |i: int| lane_byte(s[i / 8], i % 8))
}

/// The Keccak digest of `input` for a sponge with the given rate (in bytes)
/// and output length (in bytes): absorb the full blocks, absorb the padded
/// final block, and truncate the little-endian state view.
pub open spec fn keccak_digest(input: Seq<u8>, rate: int, out_len: int) -> Seq<u8> {
    state_bytes(
        absorb_block(sponge_state(input, rate), pad_block(pending_of(input, rate), rate)),
    ).take(out_len)
}

} // verus!
