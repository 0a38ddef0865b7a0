//! Xorshift pseudo-random generator.
//!
//! Each worker owns one instance. A draw returns the current 64-bit state and
//! then advances the state by a fixed xorshift transform, so the whole output
//! stream is a pure function of the initial state.

use vstd::prelude::*;

verus! {

/// Fixed constant mixed into the entropy word when a generator is built.
pub const SEED_MIX: u64 = 0x6fa1bed31f2e77dd;

/// One step of the xorshift transform: xor with the state shifted left by 13,
/// then right by 17, then left by 43.
pub open spec fn xorshift_step(s: u64) -> u64 {
    let a = s ^ (s << 13u64);
    let b = a ^ (a >> 17u64);
    b ^ (b << 43u64)
}

/// The generator state after `n` draws from initial state `seed`;
/// equivalently, the value the `n`-th draw returns (counting from zero). The
/// whole output stream is this fixed function of the seed alone, which is
/// what makes a fuzzing run replayable.
pub open spec fn rng_nth(seed: u64, n: nat) -> u64
    decreases n,
{
    if n == 0 {
        seed
    } else {
        xorshift_step(rng_nth(seed, (n - 1) as nat))
    }
}

/// Drawing advances the stream by one position: the state after a draw
/// starts the tail of the same stream.
pub proof fn lemma_stream_shift(seed: u64, n: nat)
    ensures
        rng_nth(xorshift_step(seed), n) == rng_nth(seed, n + 1),
    decreases n,
{
    if n == 0 {
        assert(rng_nth(seed, 1) == xorshift_step(rng_nth(seed, 0)));
    } else {
        lemma_stream_shift(seed, (n - 1) as nat);
        assert(rng_nth(xorshift_step(seed), n) == xorshift_step(
            rng_nth(xorshift_step(seed), (n - 1) as nat),
        ));
        assert(rng_nth(seed, n + 1) == xorshift_step(rng_nth(seed, n)));
    }
}

/// Pseudo-random generator: a single 64-bit word of state.
pub struct Rng {
    state: u64,
}

impl View for Rng {
    type V = u64;

    closed spec fn view(&self) -> u64 {
        self.state
    }
}

impl Rng {
    /// Builds a generator by mixing the fixed constant with a caller-supplied
    /// entropy word (for example a high-resolution clock reading).
    pub fn new(entropy: u64) -> (r: Rng)
        ensures
            r@ == SEED_MIX ^ entropy,
    {
        Rng { state: SEED_MIX ^ entropy }
    }

    /// Returns the current state and advances it by one xorshift step. The
    /// contract is exact, so the output stream is fully determined by the
    /// state the generator started from.
    pub fn rand(&mut self) -> (r: u64)
        ensures
            r == rng_nth(old(self)@, 0),
            final(self)@ == rng_nth(old(self)@, 1),
            r == old(self)@,
            final(self)@ == xorshift_step(old(self)@),
    {
        let val = self.state;
        self.state = self.state ^ (self.state << 13u64);
        self.state = self.state ^ (self.state >> 17u64);
        self.state = self.state ^ (self.state << 43u64);
        val
    }
}

} // verus!
