//! Laws of the sponge model: absorbing a stream block by block agrees with
//! absorbing it all at once, which is what makes the streaming hasher match
//! the one-shot digest no matter how the input is chunked.
use vstd::prelude::*;

use crate::model::{absorb_block, absorb_blocks, keccak_digest, pending_of, sponge_state,
    zero_state};
use vstd::arithmetic::div_mod::{lemma_add_mod_noop, lemma_mod_division_less_than_divisor,
    lemma_mod_sub_multiples_vanish, lemma_small_mod};

verus! {

/// Absorbing `a + b` equals absorbing `a`, then `b`, when `a` is made of
/// complete blocks.
pub proof fn lemma_absorb_blocks_append(s: Seq<u64>, a: Seq<u8>, b: Seq<u8>, rate: int)
    requires
        rate > 0,
        a.len() as int % rate == 0,
    ensures
        absorb_blocks(s, a + b, rate) == absorb_blocks(absorb_blocks(s, a, rate), b, rate),
    decreases a.len(),
{
    if a.len() == 0 {
        assert(a + b =~= b);
    } else {
        if a.len() < rate {
            lemma_small_mod(a.len(), rate as nat);
        }
        assert(a.len() >= rate);
        let a1 = a.skip(rate);
        assert((a + b).take(rate) =~= a.take(rate));
        assert((a + b).skip(rate) =~= a1 + b);
        lemma_mod_sub_multiples_vanish(a.len() as int, rate);
        assert(a1.len() as int % rate == 0);
        lemma_absorb_blocks_append(absorb_block(s, a.take(rate)), a1, b, rate);
    }
}

/// Splits a stream into its complete blocks and its pending tail: the state
/// only depends on the complete blocks, and the tail is shorter than a block.
pub proof fn lemma_split_at_blocks(x: Seq<u8>, rate: int)
    requires
        rate > 0,
    ensures
        0 <= x.len() as int % rate <= x.len(),
        x.len() as int % rate < rate,
        (x.len() - x.len() as int % rate) as int % rate == 0,
        x == x.take(x.len() - x.len() as int % rate) + pending_of(x, rate),
        pending_of(x, rate).len() == x.len() as int % rate,
        sponge_state(x, rate) == absorb_blocks(
            zero_state(),
            x.take(x.len() - x.len() as int % rate),
            rate,
        ),
{
    let r = x.len() as int % rate;
    lemma_mod_division_less_than_divisor(x.len() as int, rate);
    if x.len() < rate {
        lemma_small_mod(x.len(), rate as nat);
    }
    let f = x.len() - r;
    lemma_mod_sub_multiples_vanish(f + r - rate + rate, rate);
    assert((f + r - rate) % rate == (f + r) % rate);
    lemma_mod_sub_multiples_vanish(f, rate);
    assert((f - rate) % rate == f % rate);
    // f % rate == 0, by induction-free reasoning: f == x.len() - r and
    // x.len() % rate == r, so f % rate == (x.len() - r) % rate == 0.
    assert(f % rate == 0) by {
        vstd::arithmetic::div_mod::lemma_fundamental_div_mod(x.len() as int, rate);
        vstd::arithmetic::div_mod::lemma_mod_multiples_basic(x.len() as int / rate, rate);
        assert(rate * (x.len() as int / rate) == (x.len() as int / rate) * rate)
            by (nonlinear_arith);
        assert(f == (x.len() as int / rate) * rate);
    }
    let full = x.take(f);
    let tail = pending_of(x, rate);
    assert(x =~= full + tail);
    lemma_absorb_blocks_append(zero_state(), full, tail, rate);
    assert(absorb_blocks(absorb_blocks(zero_state(), full, rate), tail, rate) == absorb_blocks(
        zero_state(),
        full,
        rate,
    ));
}

/// Feeding too few bytes to complete a block leaves the state alone and only
/// lengthens the pending tail.
pub proof fn lemma_sponge_extend_partial(x: Seq<u8>, b: Seq<u8>, rate: int)
    requires
        rate > 0,
        x.len() as int % rate + b.len() < rate,
    ensures
        sponge_state(x + b, rate) == sponge_state(x, rate),
        (x + b).len() as int % rate == x.len() as int % rate + b.len(),
        pending_of(x + b, rate) == pending_of(x, rate) + b,
{
    let r = x.len() as int % rate;
    let f = x.len() - r;
    lemma_split_at_blocks(x, rate);
    lemma_add_mod_noop(x.len() as int, b.len() as int, rate);
    lemma_small_mod(b.len(), rate as nat);
    lemma_small_mod((r + b.len()) as nat, rate as nat);
    assert((x + b).len() as int % rate == r + b.len());
    lemma_split_at_blocks(x + b, rate);
    assert((x + b).take(f) =~= x.take(f));
    assert(pending_of(x + b, rate) =~= pending_of(x, rate) + b);
}

/// Feeding exactly the bytes that complete a block absorbs the completed
/// block (the old tail plus the new bytes) and empties the pending tail.
pub proof fn lemma_sponge_extend_block(x: Seq<u8>, b: Seq<u8>, rate: int)
    requires
        rate > 0,
        x.len() as int % rate + b.len() == rate,
    ensures
        (x + b).len() as int % rate == 0,
        sponge_state(x + b, rate) == absorb_block(
            sponge_state(x, rate),
            pending_of(x, rate) + b,
        ),
        pending_of(x + b, rate) == Seq::<u8>::empty(),
{
    let r = x.len() as int % rate;
    let f = x.len() - r;
    lemma_split_at_blocks(x, rate);
    vstd::arithmetic::div_mod::lemma_mod_add_multiples_vanish(f, rate);
    assert((rate + f) % rate == f % rate);
    assert((x + b).len() as int == f + rate);
    assert((x + b).len() as int % rate == 0);
    let full = x.take(f);
    let block = pending_of(x, rate) + b;
    assert(x + b =~= full + block);
    lemma_absorb_blocks_append(zero_state(), full, block, rate);
    let s = absorb_blocks(zero_state(), full, rate);
    let e: Seq<u8> = Seq::empty();
    assert(absorb_blocks(absorb_block(s, block), e, rate) == absorb_block(s, block));
    assert(absorb_blocks(s, block, rate) == absorb_blocks(
        absorb_block(s, block.take(rate)),
        block.skip(rate),
        rate,
    ));
    assert(block.take(rate) =~= block);
    assert(block.skip(rate) =~= e);
    assert(absorb_blocks(s, block, rate) == absorb_block(s, block));
    lemma_split_at_blocks(x + b, rate);
    assert(pending_of(x + b, rate) =~= Seq::<u8>::empty());
}

/// The concatenation of a sequence of chunks.
pub open spec fn concat_chunks(chunks: Seq<Seq<u8>>) -> Seq<u8>
    decreases chunks.len(),
{
    if chunks.len() == 0 {
        Seq::empty()
    } else {
        chunks.first() + concat_chunks(chunks.drop_first())
    }
}

/// The stream a hasher has absorbed after one `update` call per chunk, in
/// order, starting from an already absorbed `start`.
pub open spec fn absorbed_after(start: Seq<u8>, chunks: Seq<Seq<u8>>) -> Seq<u8>
    decreases chunks.len(),
{
    if chunks.len() == 0 {
        start
    } else {
        absorbed_after(start + chunks.first(), chunks.drop_first())
    }
}

/// Chunking invariance: however an input is split into successive `update`
/// calls, the absorbed stream is the concatenation of the chunks, so the
/// digest only depends on that concatenation.
pub proof fn lemma_chunking_invariance(start: Seq<u8>, chunks: Seq<Seq<u8>>)
    ensures
        absorbed_after(start, chunks) == start + concat_chunks(chunks),
    decreases chunks.len(),
{
    if chunks.len() == 0 {
        assert(start + Seq::<u8>::empty() =~= start);
    } else {
        lemma_chunking_invariance(start + chunks.first(), chunks.drop_first());
        assert((start + chunks.first()) + concat_chunks(chunks.drop_first()) =~= start + (
        chunks.first() + concat_chunks(chunks.drop_first())));
    }
}

/// Chunking invariance at the digest: a fresh hasher fed any sequence of
/// chunks digests to the one-shot digest of their concatenation.
pub proof fn lemma_digest_of_chunks(chunks: Seq<Seq<u8>>, rate: int, out_len: int)
    ensures
        keccak_digest(absorbed_after(Seq::empty(), chunks), rate, out_len) == keccak_digest(
            concat_chunks(chunks),
            rate,
            out_len,
        ),
{
    lemma_chunking_invariance(Seq::empty(), chunks);
    assert(Seq::<u8>::empty() + concat_chunks(chunks) =~= concat_chunks(chunks));
}

/// Finalising fully resets the hasher: hashing `x` on an instance whose
/// previous digest emptied the absorbed stream equals hashing `x` fresh.
pub proof fn lemma_reuse_matches_fresh(x: Seq<u8>, rate: int, out_len: int)
    ensures
        keccak_digest(Seq::<u8>::empty() + x, rate, out_len) == keccak_digest(x, rate, out_len),
{
    assert(Seq::<u8>::empty() + x =~= x);
}

} // verus!
