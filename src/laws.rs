//! What holds between the one-shot functions and the streaming states.
//!
//! A fresh state holds no input, and each `write` appends its bytes to the
//! input (`final(self).input() == old(self).input() + bytes@`); `finish`
//! returns the digest of the input and leaves the state as it was. So the
//! input after a run of writes is `written(chunks)`, and these lemmas say
//! what the digests of such runs are.

use vstd::prelude::*;

use crate::xxh32::xxh32;
use crate::xxh64::xxh64;

verus! {

/// The input of a fresh state after one `write` of each chunk, in order.
pub open spec fn written(chunks: Seq<Seq<u8>>) -> Seq<u8>
    decreases chunks.len(),
{
    if chunks.len() == 0 {
        Seq::empty()
    } else {
        written(chunks.drop_last()) + chunks.last()
    }
}

/// The input after a run of writes is the concatenation of the chunks.
pub proof fn lemma_written_is_concatenation(chunks: Seq<Seq<u8>>)
    ensures
        written(chunks) == chunks.flatten(),
    decreases chunks.len(),
{
    chunks.lemma_flatten_and_flatten_alt_are_equivalent();
    if chunks.len() > 0 {
        lemma_written_is_concatenation(chunks.drop_last());
        chunks.drop_last().lemma_flatten_and_flatten_alt_are_equivalent();
    }
}

/// One write leaves its bytes as the whole input.
pub proof fn lemma_written_one(b: Seq<u8>)
    ensures
        written(seq![b]) == b,
{
    assert(seq![b].drop_last() =~= Seq::<Seq<u8>>::empty());
    assert(written(Seq::<Seq<u8>>::empty()) == Seq::<u8>::empty());
    assert(seq![b].last() == b);
    assert(Seq::<u8>::empty() + b =~= b);
}

/// Two writes leave the concatenation of their bytes.
pub proof fn lemma_written_two(a: Seq<u8>, b: Seq<u8>)
    ensures
        written(seq![a, b]) == a + b,
{
    assert(seq![a, b].drop_last() =~= seq![a]);
    lemma_written_one(a);
}

/// Chunk invariance: however the input is cut into writes, the 32-bit
/// digest is that of the whole input.
pub proof fn lemma_xxh32_chunk_invariance(seed: u32, chunks: Seq<Seq<u8>>)
    ensures
        xxh32(seed, written(chunks)) == xxh32(seed, chunks.flatten()),
{
    lemma_written_is_concatenation(chunks);
}

/// Chunk invariance: however the input is cut into writes, the 64-bit
/// digest is that of the whole input.
pub proof fn lemma_xxh64_chunk_invariance(seed: u64, chunks: Seq<Seq<u8>>)
    ensures
        xxh64(seed, written(chunks)) == xxh64(seed, chunks.flatten()),
{
    lemma_written_is_concatenation(chunks);
}

/// One write of `b` to a fresh 32-bit state gives the one-shot digest of `b`.
pub proof fn lemma_xxh32_one_shot_is_streaming(seed: u32, b: Seq<u8>)
    ensures
        xxh32(seed, written(seq![b])) == xxh32(seed, b),
{
    lemma_written_one(b);
}

/// One write of `b` to a fresh 64-bit state gives the one-shot digest of `b`.
pub proof fn lemma_xxh64_one_shot_is_streaming(seed: u64, b: Seq<u8>)
    ensures
        xxh64(seed, written(seq![b])) == xxh64(seed, b),
{
    lemma_written_one(b);
}

/// Resuming: a digest taken after writing `a` freezes nothing; after a
/// further write of `b` the 32-bit digest is the one-shot digest of `a + b`.
pub proof fn lemma_xxh32_resume(seed: u32, a: Seq<u8>, b: Seq<u8>)
    ensures
        xxh32(seed, written(seq![a])) == xxh32(seed, a),
        xxh32(seed, written(seq![a, b])) == xxh32(seed, a + b),
{
    lemma_written_one(a);
    lemma_written_two(a, b);
}

/// Resuming: a digest taken after writing `a` freezes nothing; after a
/// further write of `b` the 64-bit digest is the one-shot digest of `a + b`.
pub proof fn lemma_xxh64_resume(seed: u64, a: Seq<u8>, b: Seq<u8>)
    ensures
        xxh64(seed, written(seq![a])) == xxh64(seed, a),
        xxh64(seed, written(seq![a, b])) == xxh64(seed, a + b),
{
    lemma_written_one(a);
    lemma_written_two(a, b);
}

} // verus!
