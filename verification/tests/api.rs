//! Construction, width validation, digest lengths, the state inspector, and
//! the consuming finalisers.
use keccak_hash::{keccak224, keccak256, KeccakBits, KeccakError, KeccakHash};

#[test]
fn width_123_is_rejected() {
    match KeccakHash::new(123) {
        Ok(_) => panic!("width 123 must be rejected"),
        Err(e) => assert_eq!(e, KeccakError::InvalidDigestWidth),
    }
}

#[test]
fn other_bad_widths_are_rejected() {
    for w in [0u32, 1, 8, 128, 225, 255, 511, 513, 1024] {
        assert!(KeccakHash::new(w).is_err(), "width {}", w);
    }
}

#[test]
fn supported_widths_are_accepted() {
    for w in [224u32, 256, 384, 512] {
        assert!(KeccakHash::new(w).is_ok(), "width {}", w);
    }
}

#[test]
fn digest_length_is_width_over_eight() {
    for (w, n) in [(224u32, 28usize), (256, 32), (384, 48), (512, 64)] {
        let mut h = KeccakHash::new(w).unwrap();
        h.update(b"some input");
        assert_eq!(h.digest().len(), n);
        // Also after absorbing nothing.
        let mut h2 = KeccakHash::new(w).unwrap();
        assert_eq!(h2.digest().len(), n);
    }
}

#[test]
fn bits_accessors_report_the_documented_sizes() {
    let cases = [
        (224u32, 28usize, 144usize, 18usize),
        (256, 32, 136, 17),
        (384, 48, 104, 13),
        (512, 64, 72, 9),
    ];
    for (w, byte_len, rate, rate_words) in cases {
        let bits = KeccakBits::try_from(w).unwrap();
        assert_eq!(bits.byte_len(), byte_len);
        assert_eq!(bits.block_size_bytes(), rate);
        assert_eq!(bits.block_size_u64(), rate_words);
    }
}

#[test]
fn bits_try_from_rejects_everything_else() {
    assert_eq!(KeccakBits::try_from(123).unwrap_err(), KeccakError::InvalidDigestWidth);
    assert_eq!(KeccakBits::try_from(0).unwrap_err(), KeccakError::InvalidDigestWidth);
}

#[test]
fn fresh_state_is_all_zero() {
    let h = KeccakHash::new(256).unwrap();
    assert_eq!(h.test_hash_state(), vec![0u8; 200]);
}

#[test]
fn state_is_zeroed_again_after_digest() {
    let mut h = KeccakHash::new(256).unwrap();
    // A full 136-byte block, so at least one permutation touches the state.
    h.update(&[7u8; 136]);
    assert_ne!(h.test_hash_state(), vec![0u8; 200]);
    let _ = h.digest();
    assert_eq!(h.test_hash_state(), vec![0u8; 200]);
}

#[test]
fn final_digest_matches_digest() {
    let mut a = KeccakHash::new(224).unwrap();
    a.update(b"payload");
    let mut b = KeccakHash::new(224).unwrap();
    b.update(b"payload");
    assert_eq!(a.final_digest(), b.digest());
    assert_eq!(b.digest(), keccak224(b""));
}

#[test]
fn final_digest_to_hex_matches_digest_to_hex() {
    let mut a = KeccakHash::new(512).unwrap();
    a.update(b"payload");
    let mut b = KeccakHash::new(512).unwrap();
    b.update(b"payload");
    assert_eq!(a.final_digest_to_hex(), b.digest_to_hex());
}

#[test]
fn digest_to_hex_is_lowercase_pairs() {
    let mut h = KeccakHash::new(256).unwrap();
    h.update(b"xyz");
    let s = h.digest_to_hex();
    assert_eq!(s.len(), 64);
    assert!(s.chars().all(|c| c.is_ascii_hexdigit() && !c.is_ascii_uppercase()));
    assert_eq!(s, hex::encode(keccak256(b"xyz")));
}
