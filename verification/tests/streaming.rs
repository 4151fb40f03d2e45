//! Streaming behaviour: chunking invariance, finalise-then-reuse, reset, and
//! misaligned feeding.
use keccak_hash::{keccak256, keccak512, KeccakHash};

fn sample(len: usize) -> Vec<u8> {
    (0..len).map(|i| ((i * 7 + 13) % 256) as u8).collect()
}

#[test]
fn one_byte_at_a_time_equals_one_shot() {
    let data = sample(500);
    let mut h = KeccakHash::new(256).unwrap();
    for b in &data {
        h.update(&[*b]);
    }
    assert_eq!(h.digest(), keccak256(&data));
}

#[test]
fn split_at_block_boundary_equals_one_shot() {
    // Keccak-256 has a 136-byte rate.
    let data = sample(408);
    let mut h = KeccakHash::new(256).unwrap();
    h.update(&data[..136]);
    h.update(&data[136..272]);
    h.update(&data[272..]);
    assert_eq!(h.digest(), keccak256(&data));
}

#[test]
fn split_around_block_boundary_equals_one_shot() {
    let data = sample(400);
    for cut in [1, 135, 136, 137, 271, 273, 399] {
        let mut h = KeccakHash::new(256).unwrap();
        h.update(&data[..cut]);
        h.update(&data[cut..]);
        assert_eq!(h.digest(), keccak256(&data), "cut {}", cut);
    }
}

#[test]
fn many_small_uneven_chunks_equal_one_shot() {
    let data = sample(1000);
    let mut h = KeccakHash::new(512).unwrap();
    let mut at = 0;
    let mut step = 1;
    while at < data.len() {
        let end = (at + step).min(data.len());
        h.update(&data[at..end]);
        at = end;
        step = step % 17 + 1;
    }
    assert_eq!(h.digest(), keccak512(&data));
}

/// Feeding through odd offsets of a larger buffer (never 8-byte aligned
/// relative to the start) gives the same digest as the aligned one-shot path.
#[test]
fn misaligned_slices_equal_one_shot() {
    let data = sample(600);
    let mut storage = vec![0u8; 601];
    storage[1..].copy_from_slice(&data);
    let misaligned = &storage[1..];
    let mut h = KeccakHash::new(256).unwrap();
    h.update(&misaligned[..137]);
    h.update(&misaligned[137..300]);
    h.update(&misaligned[300..]);
    assert_eq!(h.digest(), keccak256(&data));
}

#[test]
fn digest_resets_for_reuse() {
    let mut h = KeccakHash::new(512).unwrap();
    h.update(b"something entirely different");
    let _ = h.digest();
    h.update(b"second message");
    assert_eq!(h.digest(), keccak512(b"second message"));
}

#[test]
fn digest_of_empty_after_reuse() {
    let mut h = KeccakHash::new(256).unwrap();
    h.update(b"filler");
    let _ = h.digest();
    assert_eq!(h.digest(), keccak256(b""));
}

#[test]
fn reset_discards_absorbed_data() {
    let mut h = KeccakHash::new(256).unwrap();
    h.update(b"to be discarded");
    h.reset();
    h.update(b"kept");
    assert_eq!(h.digest(), keccak256(b"kept"));
}

#[test]
fn empty_update_is_a_noop() {
    let mut h = KeccakHash::new(256).unwrap();
    h.update(b"abc");
    h.update(b"");
    h.update(b"def");
    assert_eq!(h.digest(), keccak256(b"abcdef"));
}

#[test]
fn update_str_absorbs_utf8() {
    let text = "h\u{e9}llo \u{2603}";
    let mut a = KeccakHash::new(384).unwrap();
    a.update_str(text);
    let mut b = KeccakHash::new(384).unwrap();
    b.update(text.as_bytes());
    assert_eq!(a.digest(), b.digest());
}
