//! Mutator: copies a seed into a reusable buffer and overwrites a few byte
//! positions with pseudo-random values.
//!
//! The number of rounds is `(draw % 8) + 1`; each round draws a position
//! (with replacement, so fewer than 8 distinct positions may change) and a
//! replacement byte. The whole mutation is an exact function of the seed and
//! the generator state, which is what makes a fuzzing run reproducible.

use vstd::prelude::*;

use crate::rng::Rng;
use crate::rng::xorshift_step;

verus! {

/// `k` mutation rounds applied to `buf` with generator state `s`: each round
/// draws a position `draw % len`, then a replacement byte (the low 8 bits of
/// the next draw). Returns the final buffer and generator state.
pub open spec fn apply_rounds(buf: Seq<u8>, s: u64, k: nat) -> (Seq<u8>, u64)
    decreases k,
{
    if k == 0 || buf.len() == 0 {
        (buf, s)
    } else {
        let p = (s as int) % (buf.len() as int);
        let s1 = xorshift_step(s);
        let b = s1 as u8;
        let s2 = xorshift_step(s1);
        apply_rounds(buf.update(p, b), s2, (k - 1) as nat)
    }
}

/// One full mutation of `seed` starting from generator state `s`: the first
/// draw picks the round count `(draw % 8) + 1`, then the rounds run. An empty
/// seed is passed through untouched, with no draw at all: no byte position
/// exists to mutate.
pub open spec fn mutate_spec(seed: Seq<u8>, s: u64) -> (Seq<u8>, u64) {
    if seed.len() == 0 {
        (seed, s)
    } else {
        let k = ((s as int) % 8 + 1) as nat;
        apply_rounds(seed, xorshift_step(s), k)
    }
}

/// The rounds never change the buffer length.
pub proof fn lemma_apply_rounds_len(buf: Seq<u8>, s: u64, k: nat)
    ensures
        apply_rounds(buf, s, k).0.len() == buf.len(),
    decreases k,
{
    if k > 0 && buf.len() > 0 {
        let p = (s as int) % (buf.len() as int);
        let s1 = xorshift_step(s);
        lemma_apply_rounds_len(buf.update(p, s1 as u8), xorshift_step(s1), (k - 1) as nat);
    }
}

/// The positions where two equal-length byte strings differ.
pub open spec fn diff_positions(a: Seq<u8>, b: Seq<u8>) -> Set<int> {
    Set::new(|i: int| 0 <= i < a.len() && a[i] != b[i])
}

proof fn lemma_diff_positions_finite(a: Seq<u8>, b: Seq<u8>)
    ensures
        diff_positions(a, b).finite(),
        diff_positions(a, b).len() <= a.len(),
{
    let bound = vstd::set_lib::set_int_range(0, a.len() as int);
    vstd::set_lib::lemma_int_range(0, a.len() as int);
    vstd::set_lib::lemma_len_subset(diff_positions(a, b), bound);
}

/// Each round moves the result at most one position further from `orig`.
proof fn lemma_apply_rounds_diff(orig: Seq<u8>, buf: Seq<u8>, s: u64, k: nat)
    requires
        buf.len() == orig.len(),
        orig.len() > 0,
    ensures
        diff_positions(orig, apply_rounds(buf, s, k).0).len() <= diff_positions(orig, buf).len()
            + k,
    decreases k,
{
    lemma_diff_positions_finite(orig, buf);
    if k > 0 {
        let p = (s as int) % (buf.len() as int);
        let s1 = xorshift_step(s);
        let next = buf.update(p, s1 as u8);
        lemma_apply_rounds_diff(orig, next, xorshift_step(s1), (k - 1) as nat);
        lemma_diff_positions_finite(orig, next);
        assert(diff_positions(orig, next).subset_of(diff_positions(orig, buf).insert(p)));
        vstd::set_lib::lemma_len_subset(
            diff_positions(orig, next),
            diff_positions(orig, buf).insert(p),
        );
    }
}

/// A mutation keeps the seed's length and changes at most 8 byte positions;
/// everything else is an exact copy of the seed.
pub proof fn lemma_mutate_bounded(seed: Seq<u8>, s: u64)
    ensures
        mutate_spec(seed, s).0.len() == seed.len(),
        diff_positions(seed, mutate_spec(seed, s).0).len() <= 8,
{
    if seed.len() == 0 {
        lemma_diff_positions_finite(seed, seed);
    } else {
        let k = ((s as int) % 8 + 1) as nat;
        lemma_apply_rounds_len(seed, xorshift_step(s), k);
        lemma_apply_rounds_diff(seed, seed, xorshift_step(s), k);
        assert(diff_positions(seed, seed) =~= Set::empty());
        assert(diff_positions(seed, seed).len() == 0);
    }
}

/// Clears `out`, copies `seed` into it, then runs the mutation rounds drawn
/// from `rng`. The result is the exact function `mutate_spec` of the seed and
/// the starting generator state.
pub fn mutate(seed: &Vec<u8>, rng: &mut Rng, out: &mut Vec<u8>)
    ensures
        final(out)@ == mutate_spec(seed@, old(rng)@).0,
        final(rng)@ == mutate_spec(seed@, old(rng)@).1,
        final(out)@.len() == seed@.len(),
{
    out.clear();
    let mut i: usize = 0;
    while i < seed.len()
        invariant
            i <= seed@.len(),
            out@ == seed@.take(i as int),
        decreases seed@.len() - i,
    {
        out.push(seed[i]);
        proof {
            assert(out@ =~= seed@.take(i + 1));
        }
        i += 1;
    }
    proof {
        assert(seed@.take(seed@.len() as int) =~= seed@);
    }
    if seed.len() == 0 {
        return;
    }
    let ghost s0 = rng@;
    let rounds = (rng.rand() % 8) + 1;
    let ghost total = rounds as nat;
    let mut done: u64 = 0;
    while done < rounds
        invariant
            done <= rounds,
            rounds <= 8,
            out@.len() == seed@.len(),
            seed@.len() > 0,
            out@.len() <= usize::MAX,
            apply_rounds(out@, rng@, (rounds - done) as nat) == mutate_spec(seed@, s0),
        decreases rounds - done,
    {
        let ghost pre_buf = out@;
        let ghost pre_state = rng@;
        let len64: u64 = out.len() as u64;
        let sel = rng.rand() % len64;
        let b = rng.rand() as u8;
        out.set(sel as usize, b);
        proof {
            assert((pre_state as int) % (pre_buf.len() as int) == sel as int);
            assert(out@ == pre_buf.update(sel as int, b));
        }
        done += 1;
    }
    proof {
        lemma_apply_rounds_len(seed@, xorshift_step(s0), total);
    }
}

} // verus!
