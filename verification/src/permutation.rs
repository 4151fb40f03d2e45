//! Executable Keccak-f[1600], proved to compute the spec-level permutation
//! from `model`, together with block absorption into the lane state.
use vstd::prelude::*;

use crate::model::{
    absorb_block, chi, iota, keccak_f, keccak_round, keccak_rounds, lane_at, pi_source,
    rho_amount, rho_pi, rotl64, round_constant, theta, theta_d, xor_lanes,
};

verus! {

/// Rotate a 64-bit lane left by `n` positions.
fn rotl(x: u64, n: u64) -> (r: u64)
    requires
        n < 64,
    ensures
        r == rotl64(x, n),
{
    if n == 0 {
        x
    } else {
        (x << n) | (x >> (64 - n))
    }
}

/// The round constant of round `r`, as executable code.
fn rc_for(r: usize) -> (c: u64)
    ensures
        c == round_constant(r as int),
{
    if r == 0 { 0x0000000000000001u64 }
    else if r == 1 { 0x0000000000008082u64 }
    else if r == 2 { 0x800000000000808au64 }
    else if r == 3 { 0x8000000080008000u64 }
    else if r == 4 { 0x000000000000808bu64 }
    else if r == 5 { 0x0000000080000001u64 }
    else if r == 6 { 0x8000000080008081u64 }
    else if r == 7 { 0x8000000000008009u64 }
    else if r == 8 { 0x000000000000008au64 }
    else if r == 9 { 0x0000000000000088u64 }
    else if r == 10 { 0x0000000080008009u64 }
    else if r == 11 { 0x000000008000000au64 }
    else if r == 12 { 0x000000008000808bu64 }
    else if r == 13 { 0x800000000000008bu64 }
    else if r == 14 { 0x8000000000008089u64 }
    else if r == 15 { 0x8000000000008003u64 }
    else if r == 16 { 0x8000000000008002u64 }
    else if r == 17 { 0x8000000000000080u64 }
    else if r == 18 { 0x000000000000800au64 }
    else if r == 19 { 0x800000008000000au64 }
    else if r == 20 { 0x8000000080008081u64 }
    else if r == 21 { 0x8000000000008080u64 }
    else if r == 22 { 0x0000000080000001u64 }
    else { 0x8000000080008008u64 }
}

/// Source position of the lane that rho+pi moves to position `i`.
fn pi_src(i: usize) -> (r: usize)
    ensures
        r == pi_source(i as int),
        r < 25,
{
    if i == 0 { 0 }
    else if i == 1 { 6 }
    else if i == 2 { 12 }
    else if i == 3 { 18 }
    else if i == 4 { 24 }
    else if i == 5 { 3 }
    else if i == 6 { 9 }
    else if i == 7 { 10 }
    else if i == 8 { 16 }
    else if i == 9 { 22 }
    else if i == 10 { 1 }
    else if i == 11 { 7 }
    else if i == 12 { 13 }
    else if i == 13 { 19 }
    else if i == 14 { 20 }
    else if i == 15 { 4 }
    else if i == 16 { 5 }
    else if i == 17 { 11 }
    else if i == 18 { 17 }
    else if i == 19 { 23 }
    else if i == 20 { 2 }
    else if i == 21 { 8 }
    else if i == 22 { 14 }
    else if i == 23 { 15 }
    else { 21 }
}

/// Rotation amount of the lane that comes to rest at position `i`.
fn rho_amt(i: usize) -> (r: u64)
    ensures
        r == rho_amount(i as int),
        r < 64,
{
    if i == 0 { 0 }
    else if i == 1 { 44 }
    else if i == 2 { 43 }
    else if i == 3 { 21 }
    else if i == 4 { 14 }
    else if i == 5 { 28 }
    else if i == 6 { 20 }
    else if i == 7 { 3 }
    else if i == 8 { 45 }
    else if i == 9 { 61 }
    else if i == 10 { 1 }
    else if i == 11 { 6 }
    else if i == 12 { 25 }
    else if i == 13 { 8 }
    else if i == 14 { 18 }
    else if i == 15 { 27 }
    else if i == 16 { 36 }
    else if i == 17 { 10 }
    else if i == 18 { 15 }
    else if i == 19 { 56 }
    else if i == 20 { 62 }
    else if i == 21 { 55 }
    else if i == 22 { 39 }
    else if i == 23 { 41 }
    else { 2 }
}

/// Theta step over a fresh 25-lane vector.
fn theta_step(s: &Vec<u64>) -> (out: Vec<u64>)
    requires
        s@.len() == 25,
    ensures
        out@ == theta(s@),
{
    let c0 = s[0] ^ s[5] ^ s[10] ^ s[15] ^ s[20];
    let c1 = s[1] ^ s[6] ^ s[11] ^ s[16] ^ s[21];
    let c2 = s[2] ^ s[7] ^ s[12] ^ s[17] ^ s[22];
    let c3 = s[3] ^ s[8] ^ s[13] ^ s[18] ^ s[23];
    let c4 = s[4] ^ s[9] ^ s[14] ^ s[19] ^ s[24];
    let mut ds: Vec<u64> = Vec::new();
    ds.push(c4 ^ rotl(c1, 1));
    ds.push(c0 ^ rotl(c2, 1));
    ds.push(c1 ^ rotl(c3, 1));
    ds.push(c2 ^ rotl(c4, 1));
    ds.push(c3 ^ rotl(c0, 1));
    proof {
        assert forall|x: int| 0 <= x < 5 implies ds@[x] == theta_d(s@, x) by {
            assert((x + 4) % 5 == if x == 0 { 4int } else { x - 1 });
            assert((x + 1) % 5 == if x == 4 { 0int } else { x + 1 });
        }
    }
    let mut out: Vec<u64> = Vec::new();
    let mut i: usize = 0;
    while i < 25
        invariant
            s@.len() == 25,
            ds@.len() == 5,
            forall|x: int| 0 <= x < 5 ==> ds@[x] == theta_d(s@, x),
            i <= 25,
            out@.len() == i,
            forall|k: int| 0 <= k < i ==> #[trigger] out@[k] == s@[k] ^ theta_d(s@, k % 5),
        decreases 25 - i,
    {
        out.push(s[i] ^ ds[i % 5]);
        i += 1;
    }
    proof {
        assert(out@ =~= theta(s@));
    }
    out
}

/// Fused rho+pi step over a fresh 25-lane vector.
fn rho_pi_step(s: &Vec<u64>) -> (out: Vec<u64>)
    requires
        s@.len() == 25,
    ensures
        out@ == rho_pi(s@),
{
    let mut out: Vec<u64> = Vec::new();
    let mut i: usize = 0;
    while i < 25
        invariant
            s@.len() == 25,
            i <= 25,
            out@.len() == i,
            forall|k: int| 0 <= k < i ==> #[trigger] out@[k] == rotl64(
                s@[pi_source(k)],
                rho_amount(k),
            ),
        decreases 25 - i,
    {
        let src = pi_src(i);
        let amt = rho_amt(i);
        out.push(rotl(s[src], amt));
        i += 1;
    }
    proof {
        assert(out@ =~= rho_pi(s@));
    }
    out
}

/// Chi step over a fresh 25-lane vector; reads only the input, so each row is
/// combined from its pre-step values.
fn chi_step(s: &Vec<u64>) -> (out: Vec<u64>)
    requires
        s@.len() == 25,
    ensures
        out@ == chi(s@),
{
    let mut out: Vec<u64> = Vec::new();
    let mut i: usize = 0;
    while i < 25
        invariant
            s@.len() == 25,
            i <= 25,
            out@.len() == i,
            forall|k: int| 0 <= k < i ==> #[trigger] out@[k] == s@[k] ^ (s@[(k / 5) * 5 + (k + 2)
                % 5] & !s@[(k / 5) * 5 + (k + 1) % 5]),
        decreases 25 - i,
    {
        let g = (i / 5) * 5;
        proof {
            assert(g + 4 < 25) by (nonlinear_arith)
                requires
                    g == (i / 5) * 5,
                    i < 25,
            ;
        }
        out.push(s[i] ^ (s[g + (i + 2) % 5] & !s[g + (i + 1) % 5]));
        i += 1;
    }
    proof {
        assert(out@ =~= chi(s@));
    }
    out
}

/// One full round of the permutation.
fn round_step(s: &Vec<u64>, r: usize) -> (out: Vec<u64>)
    requires
        s@.len() == 25,
        r < 24,
    ensures
        out@ == keccak_round(s@, r as int),
{
    let t = theta_step(s);
    let p = rho_pi_step(&t);
    let mut c = chi_step(&p);
    let lane0 = c[0];
    let rc = rc_for(r);
    c.set(0, lane0 ^ rc);
    proof {
        assert(c@ =~= iota(chi(rho_pi(theta(s@))), r as int));
    }
    c
}

/// The Keccak-f[1600] permutation: 24 rounds in place.
fn permute(s: &mut Vec<u64>)
    requires
        old(s)@.len() == 25,
    ensures
        final(s)@ == keccak_f(old(s)@),
{
    let mut r: usize = 0;
    while r < 24
        invariant
            s@.len() == 25,
            r <= 24,
            s@ == keccak_rounds(old(s)@, r as int),
        decreases 24 - r,
    {
        let next = round_step(s, r);
        *s = next;
        r += 1;
    }
}

/// XOR the rate-sized block `bytes[offset .. offset + rate]` into the leading
/// lanes of the state (little-endian) and run the permutation.
pub(crate) fn process_block(state: &mut Vec<u64>, bytes: &[u8], offset: usize, rate: usize)
    requires
        old(state)@.len() == 25,
        offset + rate <= bytes@.len(),
        rate % 8 == 0,
        rate <= 200,
    ensures
        final(state)@ == absorb_block(
            old(state)@,
            bytes@.subrange(offset as int, offset as int + rate as int),
        ),
        final(state)@.len() == 25,
{
    let ghost block = bytes@.subrange(offset as int, offset as int + rate as int);
    let n = bytes.len();
    let words = rate / 8;
    let mut w: usize = 0;
    while w < words
        invariant
            state@.len() == 25,
            w <= words,
            words == rate / 8,
            rate % 8 == 0,
            rate <= 200,
            n == bytes@.len(),
            offset + rate <= n,
            block == bytes@.subrange(offset as int, offset as int + rate as int),
            forall|k: int| 0 <= k < w ==> #[trigger] state@[k] == old(state)@[k] ^ lane_at(
                block,
                k,
            ),
            forall|k: int| w <= k < 25 ==> #[trigger] state@[k] == old(state)@[k],
        decreases words - w,
    {
        proof {
            assert(8 * (w as int) + 8 <= rate) by (nonlinear_arith)
                requires
                    (w as int) < rate / 8,
                    rate % 8 == 0,
                    rate >= 0,
            ;
        }
        let base = offset + 8 * w;
        let lane = (bytes[base] as u64)
            | ((bytes[base + 1] as u64) << 8u64)
            | ((bytes[base + 2] as u64) << 16u64)
            | ((bytes[base + 3] as u64) << 24u64)
            | ((bytes[base + 4] as u64) << 32u64)
            | ((bytes[base + 5] as u64) << 40u64)
            | ((bytes[base + 6] as u64) << 48u64)
            | ((bytes[base + 7] as u64) << 56u64);
        proof {
            assert(block[8 * (w as int)] == bytes@[base as int]);
            assert(block[8 * (w as int) + 1] == bytes@[base as int + 1]);
            assert(block[8 * (w as int) + 2] == bytes@[base as int + 2]);
            assert(block[8 * (w as int) + 3] == bytes@[base as int + 3]);
            assert(block[8 * (w as int) + 4] == bytes@[base as int + 4]);
            assert(block[8 * (w as int) + 5] == bytes@[base as int + 5]);
            assert(block[8 * (w as int) + 6] == bytes@[base as int + 6]);
            assert(block[8 * (w as int) + 7] == bytes@[base as int + 7]);
            assert(lane == lane_at(block, w as int));
        }
        let cur = state[w];
        state.set(w, cur ^ lane);
        w += 1;
    }
    proof {
        assert forall|k: int| 0 <= k < 25 implies state@[k] == xor_lanes(old(state)@, block)[k] by {
            assert(8 * k + 8 <= block.len() <==> k < words as int) by (nonlinear_arith)
                requires
                    block.len() == rate,
                    words as int == rate / 8,
                    rate % 8 == 0,
                    rate >= 0,
            ;
        }
        assert(state@ =~= xor_lanes(old(state)@, block));
    }
    permute(state);
}

} // verus!
