//! Known-answer tests against the published Keccak (pre-SHA3) vectors and
//! against an independent reference implementation.
use keccak_hash::{
    keccak224, keccak224_to_hex, keccak256, keccak256_to_hex, keccak384, keccak384_hex, keccak512,
    keccak512_hex,
};
use sha3::Digest;

#[test]
fn empty_input_keccak224() {
    assert_eq!(
        keccak224_to_hex(b""),
        "f71837502ba8e10837bdd8d365adb85591895602fc552b48b7390abd"
    );
}

#[test]
fn empty_input_keccak256() {
    assert_eq!(
        keccak256_to_hex(b""),
        "c5d2460186f7233c927e7db2dcc703c0e500b653ca82273b7bfad8045d85a470"
    );
}

#[test]
fn empty_input_keccak384() {
    assert_eq!(
        keccak384_hex(b""),
        "2c23146a63a29acf99e73b88f8c24eaa7dc60aa771780ccc006afbfa8fe2479b2dd2b21362337441ac12b515911957ff"
    );
}

#[test]
fn empty_input_keccak512() {
    assert_eq!(
        keccak512_hex(b""),
        "0eab42de4c3ceb9235fc91acffe746b29c29a8c366b7c60e4e67c466f36a4304c00fa9caf9d87976ba469bcbe06713b435f091ef2769fb160cdab33d3670680e"
    );
}

#[test]
fn abc_keccak224() {
    assert_eq!(
        keccak224_to_hex(b"abc"),
        "c30411768506ebe1c2871b1ee2e87d38df342317300a9b97a95ec6a8"
    );
}

#[test]
fn abc_keccak256() {
    assert_eq!(
        keccak256_to_hex(b"abc"),
        "4e03657aea45a94fc7d47ba826c8d667c0d1e6e33a64a036ec44f58fa12d6c45"
    );
}

#[test]
fn abc_keccak384() {
    assert_eq!(
        keccak384_hex(b"abc"),
        "f7df1165f033337be098e7d288ad6a2f74409d7a60b49c36642218de161b1f99f8c681e4afaf31a34db29fb763e3c28e"
    );
}

#[test]
fn abc_keccak512() {
    assert_eq!(
        keccak512_hex(b"abc"),
        "18587dc2ea106b9a1563e32b3312421ca164c7f1f07bc922a9c83d77cea3a1e5d0c69910739025372dc14ac9642629379540c17e2a65b19d77aa511a9d00bb96"
    );
}

#[test]
fn raw_digest_matches_hex_rendering() {
    assert_eq!(hex::encode(keccak256(b"hash me")), keccak256_to_hex(b"hash me"));
    assert_eq!(hex::encode(keccak512(b"hash me")), keccak512_hex(b"hash me"));
}

fn sample(len: usize) -> Vec<u8> {
    (0..len).map(|i| (i % 251) as u8).collect()
}

fn check224(len: usize) {
    let data = sample(len);
    let mut h = sha3::Keccak224::new();
    h.update(&data);
    assert_eq!(keccak224(&data).as_slice(), h.finalize().as_slice(), "len {}", len);
}

fn check256(len: usize) {
    let data = sample(len);
    let mut h = sha3::Keccak256::new();
    h.update(&data);
    assert_eq!(keccak256(&data).as_slice(), h.finalize().as_slice(), "len {}", len);
}

fn check384(len: usize) {
    let data = sample(len);
    let mut h = sha3::Keccak384::new();
    h.update(&data);
    assert_eq!(keccak384(&data).as_slice(), h.finalize().as_slice(), "len {}", len);
}

fn check512(len: usize) {
    let data = sample(len);
    let mut h = sha3::Keccak512::new();
    h.update(&data);
    assert_eq!(keccak512(&data).as_slice(), h.finalize().as_slice(), "len {}", len);
}

/// Inputs of length rate-1, rate, and rate+1 exercise the one-byte 0x81
/// padding edge case and the full-extra-block padding case per width.
#[test]
fn block_boundary_lengths_match_reference_224() {
    for len in [0, 1, 143, 144, 145, 288, 289] {
        check224(len);
    }
}

#[test]
fn block_boundary_lengths_match_reference_256() {
    for len in [0, 1, 135, 136, 137, 272, 273] {
        check256(len);
    }
}

#[test]
fn block_boundary_lengths_match_reference_384() {
    for len in [0, 1, 103, 104, 105, 208, 209] {
        check384(len);
    }
}

#[test]
fn block_boundary_lengths_match_reference_512() {
    for len in [0, 1, 71, 72, 73, 144, 145] {
        check512(len);
    }
}

/// Absorbing one all-zero block leaves the state equal to Keccak-f[1600] of
/// the zero state, checked lane by lane against the reference permutation.
#[test]
fn zero_block_state_matches_reference_permutation() {
    let mut h = keccak_hash::KeccakHash::new(256).unwrap();
    h.update(&[0u8; 136]);
    let state = h.test_hash_state();

    let mut reference = [0u64; 25];
    keccak::Keccak::new().with_f1600(|f| f(&mut reference));
    let mut expected = Vec::new();
    for lane in reference {
        expected.extend_from_slice(&lane.to_le_bytes());
    }
    assert_eq!(state, expected);
}

#[test]
fn assorted_lengths_match_reference_256() {
    for len in 0..130 {
        check256(len);
    }
    for len in [200, 300, 500, 1000] {
        check256(len);
    }
}
