//! The streaming sponge engine: digest widths, buffered absorption across
//! arbitrary `update` calls, pad10*1 finalisation, and reset-for-reuse.
use vstd::prelude::*;

use crate::encoding::{encode_hex, hex_of};
use crate::lemmas::{lemma_sponge_extend_block, lemma_sponge_extend_partial, lemma_split_at_blocks};
use crate::model::{absorb_block, keccak_digest, lane_byte, pad_block, pending_of, sponge_state,
    state_bytes, zero_state};
use crate::permutation::process_block;
use vstd::arithmetic::div_mod::lemma_small_mod;
use vstd::string::StringSliceAdditionalSpecFns;

verus! {

/// The four supported digest widths.
#[derive(Clone, Copy, Debug, PartialEq, Eq, Structural)]
pub enum KeccakBits {
    Keccak224,
    Keccak256,
    Keccak384,
    Keccak512,
}

/// The one recoverable error: a requested digest width outside
/// {224, 256, 384, 512}.
#[derive(Clone, Copy, Debug, PartialEq, Eq, Structural)]
pub enum KeccakError {
    InvalidDigestWidth,
}

impl KeccakBits {
    /// The digest width in bits.
    pub open spec fn spec_bits(self) -> int {
        match self {
            KeccakBits::Keccak224 => 224,
            KeccakBits::Keccak256 => 256,
            KeccakBits::Keccak384 => 384,
            KeccakBits::Keccak512 => 512,
        }
    }

    /// The digest length in bytes: width / 8.
    pub open spec fn spec_byte_len(self) -> int {
        self.spec_bits() / 8
    }

    /// The sponge rate in bytes: 200 - 2 * (width / 8).
    pub open spec fn spec_rate(self) -> int {
        200 - 2 * self.spec_byte_len()
    }

    /// The digest length in bytes.
    pub fn byte_len(&self) -> (n: usize)
        ensures
            n == self.spec_byte_len(),
    {
        match self {
            KeccakBits::Keccak224 => 28,
            KeccakBits::Keccak256 => 32,
            KeccakBits::Keccak384 => 48,
            KeccakBits::Keccak512 => 64,
        }
    }

    /// The sponge rate (block size) in bytes.
    pub fn block_size_bytes(&self) -> (n: usize)
        ensures
            n == self.spec_rate(),
    {
        match self {
            KeccakBits::Keccak224 => 144,
            KeccakBits::Keccak256 => 136,
            KeccakBits::Keccak384 => 104,
            KeccakBits::Keccak512 => 72,
        }
    }

    /// The sponge rate in 64-bit lanes.
    pub fn block_size_u64(&self) -> (n: usize)
        ensures
            n == self.spec_rate() / 8,
    {
        match self {
            KeccakBits::Keccak224 => 18,
            KeccakBits::Keccak256 => 17,
            KeccakBits::Keccak384 => 13,
            KeccakBits::Keccak512 => 9,
        }
    }

    /// Accepts exactly the four supported widths; anything else is an
    /// `InvalidDigestWidth` error.
    pub fn try_from(value: u32) -> (r: Result<KeccakBits, KeccakError>)
        ensures
            (r is Ok) <==> (value == 224 || value == 256 || value == 384 || value == 512),
            match r {
                Ok(b) => b.spec_bits() == value as int,
                Err(e) => e == KeccakError::InvalidDigestWidth,
            },
    {
        match value {
            224u32 => Ok(KeccakBits::Keccak224),
            256u32 => Ok(KeccakBits::Keccak256),
            384u32 => Ok(KeccakBits::Keccak384),
            512u32 => Ok(KeccakBits::Keccak512),
            _ => Err(KeccakError::InvalidDigestWidth),
        }
    }
}

/// A vector of `n` zero lanes.
fn zeroed_u64(n: usize) -> (v: Vec<u64>)
    ensures
        v@.len() == n,
        forall|i: int| 0 <= i < n ==> #[trigger] v@[i] == 0u64,
{
    let mut v: Vec<u64> = Vec::new();
    let mut i: usize = 0;
    while i < n
        invariant
            i <= n,
            v@.len() == i,
            forall|k: int| 0 <= k < i ==> #[trigger] v@[k] == 0u64,
        decreases n - i,
    {
        v.push(0);
        i += 1;
    }
    v
}

/// A vector of `n` zero bytes.
fn zeroed_u8(n: usize) -> (v: Vec<u8>)
    ensures
        v@.len() == n,
        forall|i: int| 0 <= i < n ==> #[trigger] v@[i] == 0u8,
{
    let mut v: Vec<u8> = Vec::new();
    let mut i: usize = 0;
    while i < n
        invariant
            i <= n,
            v@.len() == i,
            forall|k: int| 0 <= k < i ==> #[trigger] v@[k] == 0u8,
        decreases n - i,
    {
        v.push(0);
        i += 1;
    }
    v
}

/// Copy `bytes[from .. from + count]` into `buf[at .. at + count]`, leaving
/// every other position of `buf` unchanged.
fn copy_into(buf: &mut Vec<u8>, at: usize, bytes: &[u8], from: usize, count: usize)
    requires
        at + count <= old(buf)@.len(),
        from + count <= bytes@.len(),
    ensures
        final(buf)@.len() == old(buf)@.len(),
        forall|i: int| at <= i < at + count ==> #[trigger] final(buf)@[i] == bytes@[i - at + from],
        forall|i: int| 0 <= i < at ==> #[trigger] final(buf)@[i] == old(buf)@[i],
        forall|i: int|
            at + count <= i < old(buf)@.len() ==> #[trigger] final(buf)@[i] == old(buf)@[i],
{
    let buf_len = buf.len();
    let bytes_len = bytes.len();
    let mut j: usize = 0;
    while j < count
        invariant
            buf_len == buf@.len(),
            bytes_len == bytes@.len(),
            at + count <= buf@.len(),
            buf@.len() == old(buf)@.len(),
            from + count <= bytes@.len(),
            j <= count,
            forall|i: int| at <= i < at + j ==> #[trigger] buf@[i] == bytes@[i - at + from],
            forall|i: int| 0 <= i < at ==> #[trigger] buf@[i] == old(buf)@[i],
            forall|i: int| at + j <= i < buf@.len() ==> #[trigger] buf@[i] == old(buf)@[i],
        decreases count - j,
    {
        let b = bytes[from + j];
        buf.set(at + j, b);
        j += 1;
    }
}

/// The little-endian bytes of the first `n` state bytes.
fn state_prefix_bytes(state: &Vec<u64>, n: usize) -> (r: Vec<u8>)
    requires
        state@.len() == 25,
        n <= 200,
    ensures
        r@ == state_bytes(state@).take(n as int),
        r@.len() == n,
{
    let mut r: Vec<u8> = Vec::new();
    let mut i: usize = 0;
    while i < n
        invariant
            state@.len() == 25,
            n <= 200,
            i <= n,
            r@.len() == i,
            forall|k: int| 0 <= k < i ==> #[trigger] r@[k] == lane_byte(state@[k / 8], k % 8),
        decreases n - i,
    {
        proof {
            assert(i / 8 < 25) by (nonlinear_arith)
                requires
                    i < 200,
            ;
        }
        let lane = state[i / 8];
        let shift: u64 = 8 * ((i % 8) as u64);
        proof {
            assert((lane >> shift) & 0xff < 256) by (bit_vector);
        }
        let b = ((lane >> shift) & 0xff) as u8;
        r.push(b);
        i += 1;
    }
    proof {
        assert(r@ =~= state_bytes(state@).take(n as int));
    }
    r
}

/// A streaming Keccak hasher: absorbs arbitrary byte chunks into the 25-lane
/// sponge state, buffering any partial block, and finalises with pad10*1.
pub struct KeccakHash {
    hash_state: Vec<u64>,
    block_buffer: Vec<u8>,
    block_buffer_byte_len: usize,
    bits: KeccakBits,
    absorbed: Ghost<Seq<u8>>,
}

impl KeccakHash {
    /// The digest width this instance was constructed with.
    pub closed spec fn width(self) -> KeccakBits {
        self.bits
    }

    /// The byte stream absorbed since construction or the last reset.
    pub closed spec fn absorbed(self) -> Seq<u8> {
        self.absorbed@
    }

    /// Well-formedness: the lane state is the sponge state of the absorbed
    /// stream's complete blocks, and the buffer holds exactly its pending
    /// tail, zero-filled to the rate.
    pub closed spec fn wf(self) -> bool {
        let rate = self.bits.spec_rate();
        &&& self.hash_state@.len() == 25
        &&& self.block_buffer@.len() == rate
        &&& (self.block_buffer_byte_len as int) < rate
        &&& (self.block_buffer_byte_len as int) == self.absorbed@.len() as int % rate
        &&& self.hash_state@ == sponge_state(self.absorbed@, rate)
        &&& (forall|i: int|
            0 <= i < self.block_buffer_byte_len ==> #[trigger] self.block_buffer@[i]
                == pending_of(self.absorbed@, rate)[i])
        &&& (forall|i: int|
            self.block_buffer_byte_len <= i < rate ==> #[trigger] self.block_buffer@[i] == 0)
    }

    /// Creates a new hasher; `bits` must be 224, 256, 384, or 512, anything
    /// else is rejected with `InvalidDigestWidth` and no instance is made.
    pub fn new(bits: u32) -> (r: Result<KeccakHash, KeccakError>)
        ensures
            (r is Ok) <==> (bits == 224 || bits == 256 || bits == 384 || bits == 512),
            match r {
                Ok(h) => h.wf() && h.absorbed() == Seq::<u8>::empty() && h.width().spec_bits()
                    == bits as int,
                Err(e) => e == KeccakError::InvalidDigestWidth,
            },
    {
        match KeccakBits::try_from(bits) {
            Ok(b) => Ok(KeccakHash::new_with_bits(b)),
            Err(e) => Err(e),
        }
    }

    /// Creates a fresh hasher for a known width: zeroed state, zeroed
    /// rate-sized buffer, empty absorbed stream.
    pub(crate) fn new_with_bits(bits: KeccakBits) -> (h: KeccakHash)
        ensures
            h.wf(),
            h.width() == bits,
            h.absorbed() == Seq::<u8>::empty(),
    {
        let rate = bits.block_size_bytes();
        let h = KeccakHash {
            hash_state: zeroed_u64(25),
            block_buffer: zeroed_u8(rate),
            block_buffer_byte_len: 0,
            bits,
            absorbed: Ghost(Seq::<u8>::empty()),
        };
        proof {
            lemma_small_mod(0, bits.spec_rate() as nat);
            assert(h.hash_state@ =~= zero_state());
        }
        h
    }

    /// The full 200-byte little-endian view of the current lane state.
    pub fn test_hash_state(&self) -> (r: Vec<u8>)
        requires
            self.wf(),
        ensures
            r@ == state_bytes(sponge_state(self.absorbed(), self.width().spec_rate())),
            r@.len() == 200,
    {
        let r = state_prefix_bytes(&self.hash_state, 200);
        proof {
            assert(state_bytes(self.hash_state@).take(200) =~= state_bytes(self.hash_state@));
        }
        r
    }

    /// Absorbs `bytes` at the end of the stream: tops up any buffered partial
    /// block, absorbs every complete block straight from the input, and
    /// buffers the remaining tail. Never fails; empty input is a no-op.
    #[verifier::rlimit(100)]
    pub fn update(&mut self, bytes: &[u8])
        requires
            old(self).wf(),
        ensures
            final(self).wf(),
            final(self).width() == old(self).width(),
            final(self).absorbed() == old(self).absorbed() + bytes@,
    {
        let rate = self.bits.block_size_bytes();
        let len = bytes.len();
        let mut i: usize = 0;

        if self.block_buffer_byte_len > 0 {
            let cursor = self.block_buffer_byte_len;
            let need = rate - cursor;
            if len >= need {
                copy_into(&mut self.block_buffer, cursor, bytes, 0, need);
                proof {
                    let ghost rt = self.bits.spec_rate();
                    let ghost b = bytes@.take(need as int);
                    lemma_split_at_blocks(self.absorbed@, rt);
                    lemma_sponge_extend_block(self.absorbed@, b, rt);
                    assert(self.block_buffer@ =~= pending_of(self.absorbed@, rt) + b);
                    assert(self.block_buffer@.subrange(0, rt) =~= self.block_buffer@);
                }
                process_block(&mut self.hash_state, self.block_buffer.as_slice(), 0, rate);
                let ghost b = bytes@.take(need as int);
                self.absorbed = Ghost(self.absorbed@ + b);
                self.block_buffer = zeroed_u8(rate);
                self.block_buffer_byte_len = 0;
                i = need;
            } else {
                copy_into(&mut self.block_buffer, cursor, bytes, 0, len);
                proof {
                    let ghost rt = self.bits.spec_rate();
                    lemma_split_at_blocks(self.absorbed@, rt);
                    lemma_sponge_extend_partial(self.absorbed@, bytes@, rt);
                }
                self.absorbed = Ghost(self.absorbed@ + bytes@);
                self.block_buffer_byte_len = cursor + len;
                i = len;
                proof {
                    assert(bytes@.take(len as int) =~= bytes@);
                }
            }
        }
        proof {
            assert(self.absorbed@ =~= old(self).absorbed@ + bytes@.take(i as int));
        }
        while len - i >= rate
            invariant
                self.wf(),
                self.bits == old(self).bits,
                rate == self.bits.spec_rate(),
                len == bytes@.len(),
                i <= len,
                self.absorbed@ == old(self).absorbed@ + bytes@.take(i as int),
                i < len ==> self.block_buffer_byte_len == 0,
            decreases len - i,
        {
            let ghost rt = self.bits.spec_rate();
            let ghost pre = self.absorbed@;
            let ghost b = bytes@.subrange(i as int, i as int + rate as int);
            proof {
                lemma_split_at_blocks(pre, rt);
                lemma_sponge_extend_block(pre, b, rt);
                assert(pending_of(pre, rt) =~= Seq::<u8>::empty());
                assert(Seq::<u8>::empty() + b =~= b);
            }
            process_block(&mut self.hash_state, bytes, i, rate);
            self.absorbed = Ghost(pre + b);
            proof {
                assert(pre + b =~= old(self).absorbed@ + bytes@.take(i as int + rate as int));
            }
            i += rate;
        }
        if i < len {
            let tail_len = len - i;
            copy_into(&mut self.block_buffer, 0, bytes, i, tail_len);
            proof {
                let ghost rt = self.bits.spec_rate();
                let ghost b = bytes@.skip(i as int);
                lemma_split_at_blocks(self.absorbed@, rt);
                lemma_sponge_extend_partial(self.absorbed@, b, rt);
                assert(pending_of(self.absorbed@, rt) =~= Seq::<u8>::empty());
                assert(Seq::<u8>::empty() + b =~= b);
                assert(self.absorbed@ + b =~= old(self).absorbed@ + bytes@);
            }
            self.block_buffer_byte_len = tail_len;
            self.absorbed = Ghost(self.absorbed@ + bytes@.skip(i as int));
        } else {
            proof {
                assert(bytes@.take(len as int) =~= bytes@);
            }
        }
    }

    /// Absorbs the UTF-8 encoding of `data`, otherwise exactly like `update`.
    pub fn update_str(&mut self, data: &str)
        requires
            old(self).wf(),
        ensures
            final(self).wf(),
            final(self).width() == old(self).width(),
            final(self).absorbed() == old(self).absorbed() + data.spec_bytes(),
    {
        self.update(data.as_bytes());
    }

    /// Discards everything absorbed so far, returning the hasher to its
    /// construction-time state.
    pub fn reset(&mut self)
        ensures
            final(self).wf(),
            final(self).width() == old(self).width(),
            final(self).absorbed() == Seq::<u8>::empty(),
    {
        let rate = self.bits.block_size_bytes();
        self.hash_state = zeroed_u64(25);
        self.block_buffer = zeroed_u8(rate);
        self.block_buffer_byte_len = 0;
        self.absorbed = Ghost(Seq::<u8>::empty());
        proof {
            lemma_small_mod(0, self.bits.spec_rate() as nat);
            assert(self.hash_state@ =~= zero_state());
        }
    }

    /// Pads the buffered tail with pad10*1 and absorbs the padded block; the
    /// lane state then holds the finalised sponge, ready to be read out.
    fn pad_and_process_block_buffer(&mut self)
        requires
            old(self).wf(),
        ensures
            final(self).bits == old(self).bits,
            final(self).hash_state@.len() == 25,
            final(self).hash_state@ == absorb_block(
                sponge_state(old(self).absorbed@, old(self).bits.spec_rate()),
                pad_block(
                    pending_of(old(self).absorbed@, old(self).bits.spec_rate()),
                    old(self).bits.spec_rate(),
                ),
            ),
    {
        let rate = self.bits.block_size_bytes();
        let cursor = self.block_buffer_byte_len;
        self.block_buffer.set(cursor, 0x01);
        let last = self.block_buffer[rate - 1];
        self.block_buffer.set(rate - 1, last | 0x80);
        proof {
            let ghost rt = self.bits.spec_rate();
            lemma_split_at_blocks(old(self).absorbed@, rt);
            assert(self.block_buffer@ =~= pad_block(pending_of(old(self).absorbed@, rt), rt));
            assert(self.block_buffer@.subrange(0, rt) =~= self.block_buffer@);
        }
        process_block(&mut self.hash_state, self.block_buffer.as_slice(), 0, rate);
    }

    /// Returns the digest of everything absorbed so far — `width/8` bytes,
    /// a prefix of the little-endian finalised state — then fully resets the
    /// hasher, which stays valid for further use.
    pub fn digest(&mut self) -> (r: Vec<u8>)
        requires
            old(self).wf(),
        ensures
            r@ == keccak_digest(
                old(self).absorbed(),
                old(self).width().spec_rate(),
                old(self).width().spec_byte_len(),
            ),
            r@.len() == old(self).width().spec_byte_len(),
            final(self).wf(),
            final(self).width() == old(self).width(),
            final(self).absorbed() == Seq::<u8>::empty(),
    {
        self.pad_and_process_block_buffer();
        let out_len = self.bits.byte_len();
        let r = state_prefix_bytes(&self.hash_state, out_len);
        self.reset();
        r
    }

    /// Like `digest`, but rendered as lowercase hex, two digits per byte.
    pub fn digest_to_hex(&mut self) -> (r: String)
        requires
            old(self).wf(),
        ensures
            r@ == hex_of(
                keccak_digest(
                    old(self).absorbed(),
                    old(self).width().spec_rate(),
                    old(self).width().spec_byte_len(),
                ),
            ),
            final(self).wf(),
            final(self).width() == old(self).width(),
            final(self).absorbed() == Seq::<u8>::empty(),
    {
        let d = self.digest();
        encode_hex(&d)
    }

    /// Returns the digest and consumes the hasher.
    pub fn final_digest(self) -> (r: Vec<u8>)
        requires
            self.wf(),
        ensures
            r@ == keccak_digest(
                self.absorbed(),
                self.width().spec_rate(),
                self.width().spec_byte_len(),
            ),
            r@.len() == self.width().spec_byte_len(),
    {
        let mut h = self;
        h.digest()
    }

    /// Returns the digest as lowercase hex and consumes the hasher.
    pub fn final_digest_to_hex(self) -> (r: String)
        requires
            self.wf(),
        ensures
            r@ == hex_of(
                keccak_digest(
                    self.absorbed(),
                    self.width().spec_rate(),
                    self.width().spec_byte_len(),
                ),
            ),
    {
        let mut h = self;
        h.digest_to_hex()
    }
}

} // verus!
