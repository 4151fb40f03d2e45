//! A streaming Keccak hasher (224/256/384/512-bit digests): a verified sponge
//! engine with incremental `update` calls, pad10*1 finalisation, and one-shot
//! convenience functions.
pub mod encoding;
pub mod hasher;
pub mod lemmas;
pub mod model;
pub mod oneshot;
mod permutation;

pub use hasher::KeccakBits;
pub use hasher::KeccakError;
pub use hasher::KeccakHash;
pub use model::keccak_digest;
pub use oneshot::keccak224;
pub use oneshot::keccak224_to_hex;
pub use oneshot::keccak256;
pub use oneshot::keccak256_to_hex;
pub use oneshot::keccak384;
pub use oneshot::keccak384_hex;
pub use oneshot::keccak512;
pub use oneshot::keccak512_hex;
