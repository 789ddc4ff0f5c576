//! The 32-bit engine: four 32-bit lanes, 16-byte stripes, 32-bit digest.

use vstd::prelude::*;

use crate::word::{load32, read32, rotate32, rotl32};

verus! {

pub const PRIME32_1: u32 = 2654435761;

pub const PRIME32_2: u32 = 2246822519;

pub const PRIME32_3: u32 = 3266489917;

pub const PRIME32_4: u32 = 668265263;

pub const PRIME32_5: u32 = 374761393;

/// The four accumulator lanes.
pub type Lanes32 = (u32, u32, u32, u32);

/// One lane absorbing one input word.
#[verifier::opaque]
pub open spec fn round32(acc: u32, input: u32) -> u32 {
    rotl32(acc.wrapping_add(input.wrapping_mul(PRIME32_2)), 13).wrapping_mul(PRIME32_1)
}

/// The lanes before any stripe has been absorbed.
pub open spec fn init_lanes32(seed: u32) -> Lanes32 {
    (
        seed.wrapping_add(PRIME32_1).wrapping_add(PRIME32_2),
        seed.wrapping_add(PRIME32_2),
        seed,
        seed.wrapping_sub(PRIME32_1),
    )
}

/// The lanes after absorbing the 16-byte stripe `blk`.
pub open spec fn stripe32(v: Lanes32, blk: Seq<u8>) -> Lanes32 {
    (
        round32(v.0, read32(blk, 0)),
        round32(v.1, read32(blk, 4)),
        round32(v.2, read32(blk, 8)),
        round32(v.3, read32(blk, 12)),
    )
}

/// The lanes after absorbing every whole stripe of `s`, front to back;
/// a tail shorter than a stripe is left alone.
#[verifier::opaque]
pub open spec fn consume32(v: Lanes32, s: Seq<u8>) -> Lanes32
    decreases s.len(),
{
    if s.len() < 16 {
        v
    } else {
        consume32(stripe32(v, s.take(16)), s.skip(16))
    }
}

/// The lanes folded into a single word.
pub open spec fn converge32(v: Lanes32) -> u32 {
    rotl32(v.0, 1).wrapping_add(rotl32(v.1, 7)).wrapping_add(rotl32(v.2, 12)).wrapping_add(
        rotl32(v.3, 18),
    )
}

/// Mixing of the bytes after the last whole stripe: four-byte words first,
/// then single bytes.
pub open spec fn tail32(h: u32, t: Seq<u8>) -> u32
    decreases t.len(),
{
    if t.len() >= 4 {
        tail32(
            rotl32(h.wrapping_add(read32(t, 0).wrapping_mul(PRIME32_3)), 17).wrapping_mul(
                PRIME32_4,
            ),
            t.skip(4),
        )
    } else if t.len() >= 1 {
        tail32(
            rotl32(h.wrapping_add((t[0] as u32).wrapping_mul(PRIME32_5)), 11).wrapping_mul(
                PRIME32_1,
            ),
            t.skip(1),
        )
    } else {
        h
    }
}

/// The final avalanche.
pub open spec fn avalanche32(h: u32) -> u32 {
    let h = h ^ (h >> 15u32);
    let h = h.wrapping_mul(PRIME32_2);
    let h = h ^ (h >> 13u32);
    let h = h.wrapping_mul(PRIME32_3);
    h ^ (h >> 16u32)
}

/// The 32-bit xxHash digest of `s` under `seed`.
pub open spec fn xxh32(seed: u32, s: Seq<u8>) -> u32 {
    let n = s.len();
    let h = if n >= 16 {
        converge32(consume32(init_lanes32(seed), s))
    } else {
        seed.wrapping_add(PRIME32_5)
    };
    avalanche32(tail32(h.wrapping_add(n as u32), s.skip(n - n % 16)))
}

/// Absorbing `a + b` is absorbing `a`, then `b`, when `a` is made of whole stripes.
pub proof fn lemma_consume32_split(v: Lanes32, a: Seq<u8>, b: Seq<u8>)
    requires
        a.len() % 16 == 0,
    ensures
        consume32(v, a + b) == consume32(consume32(v, a), b),
    decreases a.len(),
{
    reveal(consume32);
    if a.len() == 0 {
        assert(a + b =~= b);
    } else {
        assert((a + b).take(16) =~= a.take(16));
        assert((a + b).skip(16) =~= a.skip(16) + b);
        lemma_consume32_split(stripe32(v, a.take(16)), a.skip(16), b);
    }
}

/// Absorbing one more whole stripe of `s`.
pub proof fn lemma_consume32_extend(v: Lanes32, s: Seq<u8>, k: int)
    requires
        k % 16 == 0,
        0 <= k,
        k + 16 <= s.len(),
    ensures
        consume32(v, s.take(k + 16)) == stripe32(consume32(v, s.take(k)), s.subrange(k, k + 16)),
{
    let blk = s.subrange(k, k + 16);
    assert(s.take(k + 16) =~= s.take(k) + blk);
    lemma_consume32_split(v, s.take(k), blk);
    let w = consume32(v, s.take(k));
    reveal(consume32);
    assert(blk.take(16) =~= blk);
    assert(consume32(stripe32(w, blk), blk.skip(16)) == stripe32(w, blk));
}

/// A tail shorter than a stripe does not move the lanes.
pub proof fn lemma_consume32_prefix(v: Lanes32, s: Seq<u8>, k: int)
    requires
        k % 16 == 0,
        0 <= k <= s.len(),
        s.len() - k < 16,
    ensures
        consume32(v, s) == consume32(v, s.take(k)),
{
    assert(s =~= s.take(k) + s.skip(k));
    lemma_consume32_split(v, s.take(k), s.skip(k));
    reveal(consume32);
}

fn stripe(v: Lanes32, b: &[u8], off: usize) -> (res: Lanes32)
    requires
        off + 16 <= b.len(),
    ensures
        res == stripe32(v, b@.subrange(off as int, off + 16)),
{
    let ghost blk = b@.subrange(off as int, off + 16);
    let w0 = load32(b, off);
    let w1 = load32(b, off + 4);
    let w2 = load32(b, off + 8);
    let w3 = load32(b, off + 12);
    assert(w0 == read32(blk, 0));
    assert(w1 == read32(blk, 4));
    assert(w2 == read32(blk, 8));
    assert(w3 == read32(blk, 12));
    (round(v.0, w0), round(v.1, w1), round(v.2, w2), round(v.3, w3))
}

fn round(acc: u32, input: u32) -> (res: u32)
    ensures
        res == round32(acc, input),
{
    reveal(round32);
    rotate32(acc.wrapping_add(input.wrapping_mul(PRIME32_2)), 13).wrapping_mul(PRIME32_1)
}

fn converge(v: Lanes32) -> (res: u32)
    ensures
        res == converge32(v),
{
    rotate32(v.0, 1).wrapping_add(rotate32(v.1, 7)).wrapping_add(rotate32(v.2, 12)).wrapping_add(
        rotate32(v.3, 18),
    )
}

/// Mixes `b[..len]` into `h` as the tail of the input.
fn mix_tail(h: u32, b: &[u8], len: usize) -> (res: u32)
    requires
        len <= b.len(),
    ensures
        res == tail32(h, b@.take(len as int)),
{
    let mut acc = h;
    let mut i: usize = 0;
    while len - i >= 4
        invariant
            i <= len <= b@.len(),
            tail32(acc, b@.subrange(i as int, len as int)) == tail32(h, b@.take(len as int)),
        decreases len - i,
    {
        let ghost rest = b@.subrange(i as int, len as int);
        assert(rest.skip(4) =~= b@.subrange(i + 4, len as int));
        let w = load32(b, i);
        assert(w == read32(rest, 0));
        acc = rotate32(acc.wrapping_add(w.wrapping_mul(PRIME32_3)), 17).wrapping_mul(PRIME32_4);
        i = i + 4;
    }
    while i < len
        invariant
            i <= len <= b@.len(),
            len - i < 4,
            tail32(acc, b@.subrange(i as int, len as int)) == tail32(h, b@.take(len as int)),
        decreases len - i,
    {
        let ghost rest = b@.subrange(i as int, len as int);
        assert(rest.skip(1) =~= b@.subrange(i + 1, len as int));
        acc = rotate32(acc.wrapping_add((b[i] as u32).wrapping_mul(PRIME32_5)), 11).wrapping_mul(
            PRIME32_1,
        );
        i = i + 1;
    }
    assert(b@.subrange(i as int, len as int).len() == 0);
    acc
}

fn avalanche(h: u32) -> (res: u32)
    ensures
        res == avalanche32(h),
{
    let h = h ^ (h >> 15u32);
    let h = h.wrapping_mul(PRIME32_2);
    let h = h ^ (h >> 13u32);
    let h = h.wrapping_mul(PRIME32_3);
    h ^ (h >> 16u32)
}

/// Copies `src[from..from + count]` into `mem[at..at + count]`.
fn copy_in(mem: &mut [u8; 16], at: usize, src: &[u8], from: usize, count: usize)
    requires
        at + count <= 16,
        from + count <= src.len(),
    ensures
        final(mem)@.take(at + count) == old(mem)@.take(at as int) + src@.subrange(
            from as int,
            from + count,
        ),
{
    let mut k: usize = 0;
    while k < count
        invariant
            k <= count,
            at + count <= 16,
            from + count <= src.len(),
            mem@.len() == 16,
            mem@.take(at + k) == old(mem)@.take(at as int) + src@.subrange(from as int, from + k),
        decreases count - k,
    {
        let ghost before = mem@;
        mem[at + k] = src[from + k];
        assert(mem@.take(at + k + 1) =~= before.take(at + k).push(src@[from + k]));
        assert(src@.subrange(from as int, from + k + 1) =~= src@.subrange(from as int, from + k).push(
            src@[from + k],
        ));
        k = k + 1;
    }
    assert(src@.subrange(from as int, from + count) =~= src@.subrange(from as int, from + k));
}

/// Absorbs the whole stripes of `bytes[p..]` into `acc`, which holds the
/// whole stripes of `pre + bytes[..p]`; returns the lanes and where the
/// unabsorbed tail starts.
fn absorb(acc: Lanes32, bytes: &[u8], p: usize, Ghost(pre): Ghost<Seq<u8>>, Ghost(init): Ghost<Lanes32>) -> (res: (Lanes32, usize))
    requires
        p <= bytes.len(),
        (pre.len() + p) % 16 == 0,
        acc == consume32(init, pre + bytes@.take(p as int)),
    ensures
        p <= res.1 <= bytes.len(),
        bytes.len() - res.1 < 16,
        (pre.len() + res.1) % 16 == 0,
        res.0 == consume32(init, pre + bytes@.take(res.1 as int)),
{
    let len = bytes.len();
    let mut acc = acc;
    let mut p = p;
    let ghost inp = pre + bytes@;
    let ghost t0 = pre.len() as int;
    assert(inp.take(t0 + p) =~= pre + bytes@.take(p as int));
    while len - p >= 16
        invariant
            p <= len == bytes.len(),
            inp == pre + bytes@,
            t0 == pre.len(),
            (t0 + p) % 16 == 0,
            acc == consume32(init, inp.take(t0 + p)),
        decreases len - p,
    {
        proof {
            lemma_consume32_extend(init, inp, t0 + p);
        }
        assert(bytes@.subrange(p as int, p + 16) =~= inp.subrange(t0 + p, t0 + p + 16));
        assert((t0 + p + 16) % 16 == 0);
        acc = stripe(acc, bytes, p);
        p = p + 16;
    }
    assert(inp.take(t0 + p) =~= pre + bytes@.take(p as int));
    (acc, p)
}

/// A streaming xxHash-32 state: bytes go in through `write`, the digest of
/// everything written so far comes out of `finish`, any number of times.
pub struct XXH32 {
    seed: u32,
    acc: Lanes32,
    mem: [u8; 16],
    mem_size: usize,
    total_len: u64,
    input: Ghost<Seq<u8>>,
}

impl XXH32 {
    /// The seed the state was created with.
    pub closed spec fn seed(&self) -> u32 {
        self.seed
    }

    /// Every byte written since the state was created.
    pub closed spec fn input(&self) -> Seq<u8> {
        self.input@
    }

    /// The lanes hold the whole stripes of the input, the buffer the rest.
    pub closed spec fn wf(&self) -> bool {
        let n = self.input@.len();
        let full = n - self.mem_size;
        &&& self.mem_size < 16
        &&& self.total_len as int == n
        &&& full % 16 == 0
        &&& self.acc == consume32(init_lanes32(self.seed), self.input@.take(full))
        &&& self.mem@.take(self.mem_size as int) == self.input@.skip(full)
    }

    /// The digest of `bytes` with seed 0.
    pub fn hash(bytes: &[u8]) -> (res: u32)
        ensures
            res == xxh32(0, bytes@),
    {
        XXH32::hash_with_seed(0, bytes)
    }

    /// The digest of `bytes` with `seed`.
    pub fn hash_with_seed(seed: u32, bytes: &[u8]) -> (res: u32)
        ensures
            res == xxh32(seed, bytes@),
    {
        let mut state = XXH32::with_seed(seed);
        assert(state.input() + bytes@ =~= bytes@);
        assert(bytes@.len() == bytes.len());
        assert(bytes.len() <= u64::MAX);
        state.write(bytes);
        state.finish()
    }

    /// A state with seed 0 and no input.
    pub fn new() -> (res: XXH32)
        ensures
            res.wf(),
            res.seed() == 0,
            res.input() == Seq::<u8>::empty(),
    {
        XXH32::with_seed(0)
    }

    /// A state with `seed` and no input.
    pub fn with_seed(seed: u32) -> (res: XXH32)
        ensures
            res.wf(),
            res.seed() == seed,
            res.input() == Seq::<u8>::empty(),
    {
        let res = XXH32 {
            seed,
            acc: (
                seed.wrapping_add(PRIME32_1).wrapping_add(PRIME32_2),
                seed.wrapping_add(PRIME32_2),
                seed,
                seed.wrapping_sub(PRIME32_1),
            ),
            mem: [0u8; 16],
            mem_size: 0,
            total_len: 0,
            input: Ghost(Seq::empty()),
        };
        assert(res.input@.take(0) =~= Seq::<u8>::empty());
        reveal(consume32);
        assert(res.mem@.take(0) =~= res.input@.skip(0));
        res
    }

    /// Appends `bytes` to the input.
    pub fn write(&mut self, bytes: &[u8])
        requires
            old(self).wf(),
            old(self).input().len() + bytes@.len() <= u64::MAX,
        ensures
            final(self).wf(),
            final(self).seed() == old(self).seed(),
            final(self).input() == old(self).input() + bytes@,
    {
        let len = bytes.len();
        let ghost old_input = self.input@;
        let ghost t0 = self.input@.len() as int;
        let ghost full0 = t0 - self.mem_size;
        let ghost inp = self.input@ + bytes@;
        let ghost init = init_lanes32(self.seed);
        assert(inp.take(full0) =~= self.input@.take(full0));
        assert(inp.subrange(full0, t0) =~= self.input@.skip(full0));
        self.total_len = self.total_len + len as u64;
        self.input = Ghost(inp);
        // Too little to complete a stripe: it all waits in the buffer.
        if len < 16 - self.mem_size {
            let at = self.mem_size;
            copy_in(&mut self.mem, at, bytes, 0, len);
            self.mem_size = at + len;
            assert(inp.skip(full0) =~= inp.subrange(full0, t0) + bytes@.subrange(0, len as int));
            return;
        }
        // Complete the buffered stripe first, then absorb whole stripes
        // straight from `bytes`, and keep what is left in the buffer.
        let mut p: usize = 0;
        if self.mem_size > 0 {
            let at = self.mem_size;
            let fill = 16 - at;
            copy_in(&mut self.mem, at, bytes, 0, fill);
            assert(self.mem@.take(16) =~= self.mem@);
            assert(self.mem@ =~= inp.subrange(full0, full0 + 16));
            proof {
                lemma_consume32_extend(init, inp, full0);
            }
            self.acc = stripe(self.acc, &self.mem, 0);
            assert(self.mem@.subrange(0, 16) =~= self.mem@);
            self.mem_size = 0;
            p = fill;
        }
        assert(inp.take(t0 + p) =~= old_input + bytes@.take(p as int));
        let (acc, p) = absorb(self.acc, bytes, p, Ghost(old_input), Ghost(init));
        self.acc = acc;
        assert(inp.take(t0 + p) =~= old_input + bytes@.take(p as int));
        copy_in(&mut self.mem, 0, bytes, p, len - p);
        self.mem_size = len - p;
        assert(self.mem@.take(0) =~= Seq::<u8>::empty());
        assert(inp.skip(t0 + p) =~= bytes@.subrange(p as int, len as int));
    }

    /// The digest of everything written so far; the state is left as it was.
    pub fn finish(&self) -> (res: u32)
        requires
            self.wf(),
        ensures
            res == xxh32(self.seed(), self.input()),
    {
        let ghost s = self.input@;
        let ghost n = s.len();
        let ghost full = n - self.mem_size;
        proof {
            lemma_consume32_prefix(init_lanes32(self.seed), s, full);
            assert(full == n - n % 16);
        }
        let h = if self.total_len >= 16 {
            converge(self.acc)
        } else {
            self.seed.wrapping_add(PRIME32_5)
        };
        let h = h.wrapping_add(self.total_len as u32);
        assert(h == (if n >= 16 {
            converge32(consume32(init_lanes32(self.seed), s))
        } else {
            self.seed.wrapping_add(PRIME32_5)
        }).wrapping_add(n as u32));
        let h = mix_tail(h, &self.mem, self.mem_size);
        avalanche(h)
    }
}

impl Clone for XXH32 {
    /// A state with the same seed and input, which evolves on its own.
    fn clone(&self) -> (res: XXH32)
        ensures
            res == *self,
    {
        XXH32 {
            seed: self.seed,
            acc: self.acc,
            mem: self.mem,
            mem_size: self.mem_size,
            total_len: self.total_len,
            input: self.input,
        }
    }
}

impl Default for XXH32 {
    fn default() -> (res: XXH32)
        ensures
            res.wf(),
            res.seed() == 0,
            res.input() == Seq::<u8>::empty(),
    {
        XXH32::new()
    }
}

} // verus!
