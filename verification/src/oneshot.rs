//! One-shot convenience functions: construct a fresh hasher, absorb the whole
//! input once, finalise, and discard the hasher.
use vstd::prelude::*;

use crate::encoding::hex_of;
use crate::hasher::{KeccakBits, KeccakHash};
use crate::model::keccak_digest;

verus! {

/// The Keccak-224 digest of `bytes`.
pub fn keccak224(bytes: &[u8]) -> (r: Vec<u8>)
    ensures
        r@ == keccak_digest(
            bytes@,
            KeccakBits::Keccak224.spec_rate(),
            KeccakBits::Keccak224.spec_byte_len(),
        ),
        r@.len() == 28,
{
    let mut hasher = KeccakHash::new_with_bits(KeccakBits::Keccak224);
    hasher.update(bytes);
    proof {
        assert(Seq::<u8>::empty() + bytes@ =~= bytes@);
    }
    hasher.final_digest()
}

/// The Keccak-224 digest of `bytes`, as lowercase hex.
pub fn keccak224_to_hex(bytes: &[u8]) -> (r: String)
    ensures
        r@ == hex_of(
            keccak_digest(
                bytes@,
                KeccakBits::Keccak224.spec_rate(),
                KeccakBits::Keccak224.spec_byte_len(),
            ),
        ),
{
    let mut hasher = KeccakHash::new_with_bits(KeccakBits::Keccak224);
    hasher.update(bytes);
    proof {
        assert(Seq::<u8>::empty() + bytes@ =~= bytes@);
    }
    hasher.final_digest_to_hex()
}

/// The Keccak-256 digest of `bytes`.
pub fn keccak256(bytes: &[u8]) -> (r: Vec<u8>)
    ensures
        r@ == keccak_digest(
            bytes@,
            KeccakBits::Keccak256.spec_rate(),
            KeccakBits::Keccak256.spec_byte_len(),
        ),
        r@.len() == 32,
{
    let mut hasher = KeccakHash::new_with_bits(KeccakBits::Keccak256);
    hasher.update(bytes);
    proof {
        assert(Seq::<u8>::empty() + bytes@ =~= bytes@);
    }
    hasher.final_digest()
}

/// The Keccak-256 digest of `bytes`, as lowercase hex.
pub fn keccak256_to_hex(bytes: &[u8]) -> (r: String)
    ensures
        r@ == hex_of(
            keccak_digest(
                bytes@,
                KeccakBits::Keccak256.spec_rate(),
                KeccakBits::Keccak256.spec_byte_len(),
            ),
        ),
{
    let mut hasher = KeccakHash::new_with_bits(KeccakBits::Keccak256);
    hasher.update(bytes);
    proof {
        assert(Seq::<u8>::empty() + bytes@ =~= bytes@);
    }
    hasher.final_digest_to_hex()
}

/// The Keccak-384 digest of `bytes`.
pub fn keccak384(bytes: &[u8]) -> (r: Vec<u8>)
    ensures
        r@ == keccak_digest(
            bytes@,
            KeccakBits::Keccak384.spec_rate(),
            KeccakBits::Keccak384.spec_byte_len(),
        ),
        r@.len() == 48,
{
    let mut hasher = KeccakHash::new_with_bits(KeccakBits::Keccak384);
    hasher.update(bytes);
    proof {
        assert(Seq::<u8>::empty() + bytes@ =~= bytes@);
    }
    hasher.final_digest()
}

/// The Keccak-384 digest of `bytes`, as lowercase hex.
pub fn keccak384_hex(bytes: &[u8]) -> (r: String)
    ensures
        r@ == hex_of(
            keccak_digest(
                bytes@,
                KeccakBits::Keccak384.spec_rate(),
                KeccakBits::Keccak384.spec_byte_len(),
            ),
        ),
{
    let mut hasher = KeccakHash::new_with_bits(KeccakBits::Keccak384);
    hasher.update(bytes);
    proof {
        assert(Seq::<u8>::empty() + bytes@ =~= bytes@);
    }
    hasher.final_digest_to_hex()
}

/// The Keccak-512 digest of `bytes`.
pub fn keccak512(bytes: &[u8]) -> (r: Vec<u8>)
    ensures
        r@ == keccak_digest(
            bytes@,
            KeccakBits::Keccak512.spec_rate(),
            KeccakBits::Keccak512.spec_byte_len(),
        ),
        r@.len() == 64,
{
    let mut hasher = KeccakHash::new_with_bits(KeccakBits::Keccak512);
    hasher.update(bytes);
    proof {
        assert(Seq::<u8>::empty() + bytes@ =~= bytes@);
    }
    hasher.final_digest()
}

/// The Keccak-512 digest of `bytes`, as lowercase hex.
pub fn keccak512_hex(bytes: &[u8]) -> (r: String)
    ensures
        r@ == hex_of(
            keccak_digest(
                bytes@,
                KeccakBits::Keccak512.spec_rate(),
                KeccakBits::Keccak512.spec_byte_len(),
            ),
        ),
{
    let mut hasher = KeccakHash::new_with_bits(KeccakBits::Keccak512);
    hasher.update(bytes);
    proof {
        assert(Seq::<u8>::empty() + bytes@ =~= bytes@);
    }
    hasher.final_digest_to_hex()
}

} // verus!
