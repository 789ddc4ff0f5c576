//! The 64-bit engine: four 64-bit lanes, 32-byte stripes, 64-bit digest.

use vstd::prelude::*;

use crate::word::{load32, load64, read32, read64, rotate64, rotl64};

verus! {

pub const PRIME64_1: u64 = 11400714785074694791;

pub const PRIME64_2: u64 = 14029467366897019727;

pub const PRIME64_3: u64 = 1609587929392839161;

pub const PRIME64_4: u64 = 9650029242287828579;

pub const PRIME64_5: u64 = 2870177450012600261;

/// The four accumulator lanes.
pub type Lanes64 = (u64, u64, u64, u64);

/// One lane absorbing one input word.
#[verifier::opaque]
pub open spec fn round64(acc: u64, input: u64) -> u64 {
    rotl64(acc.wrapping_add(input.wrapping_mul(PRIME64_2)), 31).wrapping_mul(PRIME64_1)
}

/// A lane folded into the converged word.
pub open spec fn merge64(acc: u64, v: u64) -> u64 {
    (acc ^ round64(0, v)).wrapping_mul(PRIME64_1).wrapping_add(PRIME64_4)
}

/// The lanes before any stripe has been absorbed.
pub open spec fn init_lanes64(seed: u64) -> Lanes64 {
    (
        seed.wrapping_add(PRIME64_1).wrapping_add(PRIME64_2),
        seed.wrapping_add(PRIME64_2),
        seed,
        seed.wrapping_sub(PRIME64_1),
    )
}

/// The lanes after absorbing the 32-byte stripe `blk`.
pub open spec fn stripe64(v: Lanes64, blk: Seq<u8>) -> Lanes64 {
    (
        round64(v.0, read64(blk, 0)),
        round64(v.1, read64(blk, 8)),
        round64(v.2, read64(blk, 16)),
        round64(v.3, read64(blk, 24)),
    )
}

/// The lanes after absorbing every whole stripe of `s`, front to back;
/// a tail shorter than a stripe is left alone.
#[verifier::opaque]
pub open spec fn consume64(v: Lanes64, s: Seq<u8>) -> Lanes64
    decreases s.len(),
{
    if s.len() < 32 {
        v
    } else {
        consume64(stripe64(v, s.take(32)), s.skip(32))
    }
}

/// The lanes folded into a single word.
pub open spec fn converge64(v: Lanes64) -> u64 {
    let h = rotl64(v.0, 1).wrapping_add(rotl64(v.1, 7)).wrapping_add(rotl64(v.2, 12)).wrapping_add(
        rotl64(v.3, 18),
    );
    merge64(merge64(merge64(merge64(h, v.0), v.1), v.2), v.3)
}

/// Mixing of the bytes after the last whole stripe: eight-byte words
/// first, then at most one four-byte word, then single bytes.
pub open spec fn tail64(h: u64, t: Seq<u8>) -> u64
    decreases t.len(),
{
    if t.len() >= 8 {
        tail64(
            rotl64(h ^ round64(0, read64(t, 0)), 27).wrapping_mul(PRIME64_1).wrapping_add(
                PRIME64_4,
            ),
            t.skip(8),
        )
    } else if t.len() >= 4 {
        tail64(
            rotl64(h ^ (read32(t, 0) as u64).wrapping_mul(PRIME64_1), 23).wrapping_mul(
                PRIME64_2,
            ).wrapping_add(PRIME64_3),
            t.skip(4),
        )
    } else if t.len() >= 1 {
        tail64(
            rotl64(h ^ (t[0] as u64).wrapping_mul(PRIME64_5), 11).wrapping_mul(PRIME64_1),
            t.skip(1),
        )
    } else {
        h
    }
}

/// The final avalanche.
pub open spec fn avalanche64(h: u64) -> u64 {
    let h = h ^ (h >> 33u64);
    let h = h.wrapping_mul(PRIME64_2);
    let h = h ^ (h >> 29u64);
    let h = h.wrapping_mul(PRIME64_3);
    h ^ (h >> 32u64)
}

/// The 64-bit xxHash digest of `s` under `seed`.
pub open spec fn xxh64(seed: u64, s: Seq<u8>) -> u64 {
    let n = s.len();
    let h = if n >= 32 {
        converge64(consume64(init_lanes64(seed), s))
    } else {
        seed.wrapping_add(PRIME64_5)
    };
    avalanche64(tail64(h.wrapping_add(n as u64), s.skip(n - n % 32)))
}

/// Absorbing `a + b` is absorbing `a`, then `b`, when `a` is made of whole stripes.
pub proof fn lemma_consume64_split(v: Lanes64, a: Seq<u8>, b: Seq<u8>)
    requires
        a.len() % 32 == 0,
    ensures
        consume64(v, a + b) == consume64(consume64(v, a), b),
    decreases a.len(),
{
    reveal(consume64);
    if a.len() == 0 {
        assert(a + b =~= b);
    } else {
        assert((a + b).take(32) =~= a.take(32));
        assert((a + b).skip(32) =~= a.skip(32) + b);
        lemma_consume64_split(stripe64(v, a.take(32)), a.skip(32), b);
    }
}

/// Absorbing one more whole stripe of `s`.
pub proof fn lemma_consume64_extend(v: Lanes64, s: Seq<u8>, k: int)
    requires
        k % 32 == 0,
        0 <= k,
        k + 32 <= s.len(),
    ensures
        consume64(v, s.take(k + 32)) == stripe64(consume64(v, s.take(k)), s.subrange(k, k + 32)),
{
    let blk = s.subrange(k, k + 32);
    assert(s.take(k + 32) =~= s.take(k) + blk);
    lemma_consume64_split(v, s.take(k), blk);
    let w = consume64(v, s.take(k));
    reveal(consume64);
    assert(blk.take(32) =~= blk);
    assert(consume64(stripe64(w, blk), blk.skip(32)) == stripe64(w, blk));
}

/// A tail shorter than a stripe does not move the lanes.
pub proof fn lemma_consume64_prefix(v: Lanes64, s: Seq<u8>, k: int)
    requires
        k % 32 == 0,
        0 <= k <= s.len(),
        s.len() - k < 32,
    ensures
        consume64(v, s) == consume64(v, s.take(k)),
{
    assert(s =~= s.take(k) + s.skip(k));
    lemma_consume64_split(v, s.take(k), s.skip(k));
    reveal(consume64);
}

fn stripe(v: Lanes64, b: &[u8], off: usize) -> (res: Lanes64)
    requires
        off + 32 <= b.len(),
    ensures
        res == stripe64(v, b@.subrange(off as int, off + 32)),
{
    let ghost blk = b@.subrange(off as int, off + 32);
    let w0 = load64(b, off);
    let w1 = load64(b, off + 8);
    let w2 = load64(b, off + 16);
    let w3 = load64(b, off + 24);
    assert(w0 == read64(blk, 0));
    assert(w1 == read64(blk, 8));
    assert(w2 == read64(blk, 16));
    assert(w3 == read64(blk, 24));
    (round(v.0, w0), round(v.1, w1), round(v.2, w2), round(v.3, w3))
}

fn round(acc: u64, input: u64) -> (res: u64)
    ensures
        res == round64(acc, input),
{
    reveal(round64);
    rotate64(acc.wrapping_add(input.wrapping_mul(PRIME64_2)), 31).wrapping_mul(PRIME64_1)
}

fn merge(acc: u64, v: u64) -> (res: u64)
    ensures
        res == merge64(acc, v),
{
    (acc ^ round(0, v)).wrapping_mul(PRIME64_1).wrapping_add(PRIME64_4)
}

fn converge(v: Lanes64) -> (res: u64)
    ensures
        res == converge64(v),
{
    let h = rotate64(v.0, 1).wrapping_add(rotate64(v.1, 7)).wrapping_add(rotate64(v.2, 12))
        .wrapping_add(rotate64(v.3, 18));
    merge(merge(merge(merge(h, v.0), v.1), v.2), v.3)
}

/// Mixes `b[..len]` into `h` as the tail of the input.
fn mix_tail(h: u64, b: &[u8], len: usize) -> (res: u64)
    requires
        len <= b.len(),
    ensures
        res == tail64(h, b@.take(len as int)),
{
    let mut acc = h;
    let mut i: usize = 0;
    while len - i >= 8
        invariant
            i <= len <= b@.len(),
            tail64(acc, b@.subrange(i as int, len as int)) == tail64(h, b@.take(len as int)),
        decreases len - i,
    {
        let ghost rest = b@.subrange(i as int, len as int);
        assert(rest.skip(8) =~= b@.subrange(i + 8, len as int));
        let w = load64(b, i);
        assert(w == read64(rest, 0));
        acc = rotate64(acc ^ round(0, w), 27).wrapping_mul(PRIME64_1).wrapping_add(PRIME64_4);
        i = i + 8;
    }
    if len - i >= 4 {
        let ghost rest = b@.subrange(i as int, len as int);
        assert(rest.skip(4) =~= b@.subrange(i + 4, len as int));
        let w = load32(b, i);
        assert(w == read32(rest, 0));
        acc = rotate64(acc ^ (w as u64).wrapping_mul(PRIME64_1), 23).wrapping_mul(PRIME64_2)
            .wrapping_add(PRIME64_3);
        i = i + 4;
    }
    while i < len
        invariant
            i <= len <= b@.len(),
            len - i < 4,
            tail64(acc, b@.subrange(i as int, len as int)) == tail64(h, b@.take(len as int)),
        decreases len - i,
    {
        let ghost rest = b@.subrange(i as int, len as int);
        assert(rest.skip(1) =~= b@.subrange(i + 1, len as int));
        acc = rotate64(acc ^ (b[i] as u64).wrapping_mul(PRIME64_5), 11).wrapping_mul(PRIME64_1);
        i = i + 1;
    }
    assert(b@.subrange(i as int, len as int).len() == 0);
    acc
}

fn avalanche(h: u64) -> (res: u64)
    ensures
        res == avalanche64(h),
{
    let h = h ^ (h >> 33u64);
    let h = h.wrapping_mul(PRIME64_2);
    let h = h ^ (h >> 29u64);
    let h = h.wrapping_mul(PRIME64_3);
    h ^ (h >> 32u64)
}

/// Copies `src[from..from + count]` into `mem[at..at + count]`.
fn copy_in(mem: &mut [u8; 32], at: usize, src: &[u8], from: usize, count: usize)
    requires
        at + count <= 32,
        from + count <= src.len(),
    ensures
        final(mem)@.take(at + count) == old(mem)@.take(at as int) + src@.subrange(
            from as int,
            from + count,
        ),
{
    let mut k: usize = 0;
    while k < count
        invariant
            k <= count,
            at + count <= 32,
            from + count <= src.len(),
            mem@.len() == 32,
            mem@.take(at + k) == old(mem)@.take(at as int) + src@.subrange(from as int, from + k),
        decreases count - k,
    {
        let ghost before = mem@;
        mem[at + k] = src[from + k];
        assert(mem@.take(at + k + 1) =~= before.take(at + k).push(src@[from + k]));
        assert(src@.subrange(from as int, from + k + 1) =~= src@.subrange(from as int, from + k).push(
            src@[from + k],
        ));
        k = k + 1;
    }
    assert(src@.subrange(from as int, from + count) =~= src@.subrange(from as int, from + k));
}

/// Absorbs the whole stripes of `bytes[p..]` into `acc`, which holds the
/// whole stripes of `pre + bytes[..p]`; returns the lanes and where the
/// unabsorbed tail starts.
fn absorb(acc: Lanes64, bytes: &[u8], p: usize, Ghost(pre): Ghost<Seq<u8>>, Ghost(init): Ghost<Lanes64>) -> (res: (Lanes64, usize))
    requires
        p <= bytes.len(),
        (pre.len() + p) % 32 == 0,
        acc == consume64(init, pre + bytes@.take(p as int)),
    ensures
        p <= res.1 <= bytes.len(),
        bytes.len() - res.1 < 32,
        (pre.len() + res.1) % 32 == 0,
        res.0 == consume64(init, pre + bytes@.take(res.1 as int)),
{
    let len = bytes.len();
    let mut acc = acc;
    let mut p = p;
    let ghost inp = pre + bytes@;
    let ghost t0 = pre.len() as int;
    assert(inp.take(t0 + p) =~= pre + bytes@.take(p as int));
    while len - p >= 32
        invariant
            p <= len == bytes.len(),
            inp == pre + bytes@,
            t0 == pre.len(),
            (t0 + p) % 32 == 0,
            acc == consume64(init, inp.take(t0 + p)),
        decreases len - p,
    {
        proof {
            lemma_consume64_extend(init, inp, t0 + p);
        }
        assert(bytes@.subrange(p as int, p + 32) =~= inp.subrange(t0 + p, t0 + p + 32));
        assert((t0 + p + 32) % 32 == 0);
        acc = stripe(acc, bytes, p);
        p = p + 32;
    }
    assert(inp.take(t0 + p) =~= pre + bytes@.take(p as int));
    (acc, p)
}

/// A streaming xxHash-64 state: bytes go in through `write`, the digest of
/// everything written so far comes out of `finish`, any number of times.
pub struct XXH64 {
    seed: u64,
    acc: Lanes64,
    mem: [u8; 32],
    mem_size: usize,
    total_len: u64,
    input: Ghost<Seq<u8>>,
}

impl XXH64 {
    /// The seed the state was created with.
    pub closed spec fn seed(&self) -> u64 {
        self.seed
    }

    /// Every byte written since the state was created.
    pub closed spec fn input(&self) -> Seq<u8> {
        self.input@
    }

    /// The lanes hold the whole stripes of the input, the buffer the rest.
    pub closed spec fn wf(&self) -> bool {
        let n = self.input@.len();
        let full = n - self.mem_size;
        &&& self.mem_size < 32
        &&& self.total_len as int == n
        &&& full % 32 == 0
        &&& self.acc == consume64(init_lanes64(self.seed), self.input@.take(full))
        &&& self.mem@.take(self.mem_size as int) == self.input@.skip(full)
    }

    /// The digest of `bytes` with seed 0.
    pub fn hash(bytes: &[u8]) -> (res: u64)
        ensures
            res == xxh64(0, bytes@),
    {
        XXH64::hash_with_seed(0, bytes)
    }

    /// The digest of `bytes` with `seed`.
    pub fn hash_with_seed(seed: u64, bytes: &[u8]) -> (res: u64)
        ensures
            res == xxh64(seed, bytes@),
    {
        let mut state = XXH64::with_seed(seed);
        assert(state.input() + bytes@ =~= bytes@);
        assert(bytes@.len() == bytes.len());
        assert(bytes.len() <= u64::MAX);
        state.write(bytes);
        state.finish()
    }

    /// A state with seed 0 and no input.
    pub fn new() -> (res: XXH64)
        ensures
            res.wf(),
            res.seed() == 0,
            res.input() == Seq::<u8>::empty(),
    {
        XXH64::with_seed(0)
    }

    /// A state with `seed` and no input.
    pub fn with_seed(seed: u64) -> (res: XXH64)
        ensures
            res.wf(),
            res.seed() == seed,
            res.input() == Seq::<u8>::empty(),
    {
        let res = XXH64 {
            seed,
            acc: (
                seed.wrapping_add(PRIME64_1).wrapping_add(PRIME64_2),
                seed.wrapping_add(PRIME64_2),
                seed,
                seed.wrapping_sub(PRIME64_1),
            ),
            mem: [0u8; 32],
            mem_size: 0,
            total_len: 0,
            input: Ghost(Seq::empty()),
        };
        assert(res.input@.take(0) =~= Seq::<u8>::empty());
        reveal(consume64);
        assert(res.mem@.take(0) =~= res.input@.skip(0));
        res
    }

    /// Appends `bytes` to the input.
    pub fn write(&mut self, bytes: &[u8])
        requires
            old(self).wf(),
            old(self).input().len() + bytes@.len() <= u64::MAX,
        ensures
            final(self).wf(),
            final(self).seed() == old(self).seed(),
            final(self).input() == old(self).input() + bytes@,
    {
        let len = bytes.len();
        let ghost old_input = self.input@;
        let ghost t0 = self.input@.len() as int;
        let ghost full0 = t0 - self.mem_size;
        let ghost inp = self.input@ + bytes@;
        let ghost init = init_lanes64(self.seed);
        assert(inp.take(full0) =~= self.input@.take(full0));
        assert(inp.subrange(full0, t0) =~= self.input@.skip(full0));
        self.total_len = self.total_len + len as u64;
        self.input = Ghost(inp);
        // Too little to complete a stripe: it all waits in the buffer.
        if len < 32 - self.mem_size {
            let at = self.mem_size;
            copy_in(&mut self.mem, at, bytes, 0, len);
            self.mem_size = at + len;
            assert(inp.skip(full0) =~= inp.subrange(full0, t0) + bytes@.subrange(0, len as int));
            return;
        }
        // Complete the buffered stripe first, then absorb whole stripes
        // straight from `bytes`, and keep what is left in the buffer.
        let mut p: usize = 0;
        if self.mem_size > 0 {
            let at = self.mem_size;
            let fill = 32 - at;
            copy_in(&mut self.mem, at, bytes, 0, fill);
            assert(self.mem@.take(32) =~= self.mem@);
            assert(self.mem@ =~= inp.subrange(full0, full0 + 32));
            proof {
                lemma_consume64_extend(init, inp, full0);
            }
            self.acc = stripe(self.acc, &self.mem, 0);
            assert(self.mem@.subrange(0, 32) =~= self.mem@);
            self.mem_size = 0;
            p = fill;
        }
        assert(inp.take(t0 + p) =~= old_input + bytes@.take(p as int));
        let (acc, p) = absorb(self.acc, bytes, p, Ghost(old_input), Ghost(init));
        self.acc = acc;
        assert(inp.take(t0 + p) =~= old_input + bytes@.take(p as int));
        copy_in(&mut self.mem, 0, bytes, p, len - p);
        self.mem_size = len - p;
        assert(self.mem@.take(0) =~= Seq::<u8>::empty());
        assert(inp.skip(t0 + p) =~= bytes@.subrange(p as int, len as int));
    }

    /// The digest of everything written so far; the state is left as it was.
    pub fn finish(&self) -> (res: u64)
        requires
            self.wf(),
        ensures
            res == xxh64(self.seed(), self.input()),
    {
        let ghost s = self.input@;
        let ghost n = s.len();
        let ghost full = n - self.mem_size;
        proof {
            lemma_consume64_prefix(init_lanes64(self.seed), s, full);
            assert(full == n - n % 32);
        }
        let h = if self.total_len >= 32 {
            converge(self.acc)
        } else {
            self.seed.wrapping_add(PRIME64_5)
        };
        let h = h.wrapping_add(self.total_len);
        assert(h == (if n >= 32 {
            converge64(consume64(init_lanes64(self.seed), s))
        } else {
            self.seed.wrapping_add(PRIME64_5)
        }).wrapping_add(n as u64));
        let h = mix_tail(h, &self.mem, self.mem_size);
        avalanche(h)
    }
}

impl Clone for XXH64 {
    /// A state with the same seed and input, which evolves on its own.
    fn clone(&self) -> (res: XXH64)
        ensures
            res == *self,
    {
        XXH64 {
            seed: self.seed,
            acc: self.acc,
            mem: self.mem,
            mem_size: self.mem_size,
            total_len: self.total_len,
            input: self.input,
        }
    }
}

impl Default for XXH64 {
    fn default() -> (res: XXH64)
        ensures
            res.wf(),
            res.seed() == 0,
            res.input() == Seq::<u8>::empty(),
    {
        XXH64::new()
    }
}

} // verus!
