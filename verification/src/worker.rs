//! Worker step logic and statistics accounting.
//!
//! A worker loops forever: select a seed by the next draw modulo the corpus
//! size, mutate it into the scratch buffer, have the target run on the buffer,
//! classify the outcome, and count. The target run itself is outside work; the
//! driver alternates `prepare_case` (which readies the next input) with
//! `worker` (which takes the termination outcome and updates the counters).
//! The crash counter moves once per crash; the case counter moves once per
//! completed batch of `BATCH_SIZE` iterations, which keeps contention on the
//! shared counters low.

use vstd::prelude::*;

use crate::corpus::Corpus;
use crate::crash::Outcome;
use crate::crash::classify;
use crate::crash::is_crash;
use crate::mutation::mutate;
use crate::mutation::mutate_spec;
use crate::rng::Rng;
use crate::rng::xorshift_step;

verus! {

/// Number of fuzz iterations per increment of the case counter.
pub const BATCH_SIZE: u64 = 10;

/// Process-wide throughput counters. Both only ever grow.
pub struct Statistics {
    /// Completed batches of fuzz iterations.
    pub fuzz_cases: u64,
    /// Observed crash events.
    pub crashes: u64,
}

impl Statistics {
    /// Fresh counters, both zero.
    pub fn new() -> (r: Statistics)
        ensures
            r.fuzz_cases == 0,
            r.crashes == 0,
    {
        Statistics { fuzz_cases: 0, crashes: 0 }
    }
}

/// What one completed iteration told the driver: whether the outcome was a
/// crash (so the triggering input should be persisted), and whether this
/// iteration completed a batch.
#[derive(Debug, PartialEq, Eq, Structural, Clone, Copy)]
pub struct Verdict {
    /// The outcome was a crash.
    pub crash: bool,
    /// This iteration was the last of a batch.
    pub batch_done: bool,
}

/// One worker's private state: its generator, its reusable mutation buffer,
/// and its position within the current batch.
pub struct Worker {
    /// The worker's own pseudo-random generator.
    pub rng: Rng,
    /// The scratch buffer holding the current mutated input.
    pub input: Vec<u8>,
    /// Iterations completed in the current batch, always below `BATCH_SIZE`.
    pub batch_progress: u64,
}

/// The seed that generator state `s` selects from the corpus: the draw modulo
/// the corpus size.
pub open spec fn selected_seed(corpus: Seq<Seq<u8>>, s: u64) -> Seq<u8>
    recommends
        corpus.len() > 0,
{
    corpus[(s as int) % (corpus.len() as int)]
}

impl Worker {
    /// A worker is well formed while its batch position has not reached the
    /// batch size.
    pub open spec fn wf(&self) -> bool {
        self.batch_progress < BATCH_SIZE
    }

    /// A fresh worker around its own generator, with an empty scratch buffer
    /// and a batch just begun.
    pub fn new(rng: Rng) -> (r: Worker)
        ensures
            r.rng == rng,
            r.input@ == Seq::<u8>::empty(),
            r.batch_progress == 0,
            r.wf(),
    {
        Worker { rng, input: Vec::new(), batch_progress: 0 }
    }
}

/// Readies the next fuzz input: draws a seed index modulo the corpus size,
/// then mutates that seed into the worker's scratch buffer. Everything is an
/// exact function of the corpus and the generator state the worker held.
pub fn prepare_case(w: &mut Worker, corpus: &Corpus)
    requires
        old(w).wf(),
        corpus@.len() > 0,
    ensures
        final(w).wf(),
        final(w).input@ == mutate_spec(
            selected_seed(corpus@, old(w).rng@),
            xorshift_step(old(w).rng@),
        ).0,
        final(w).rng@ == mutate_spec(
            selected_seed(corpus@, old(w).rng@),
            xorshift_step(old(w).rng@),
        ).1,
        final(w).batch_progress == old(w).batch_progress,
{
    let len64: u64 = corpus.len() as u64;
    let sel64 = w.rng.rand() % len64;
    let sel = sel64 as usize;
    let seed = corpus.get(sel);
    mutate(seed, &mut w.rng, &mut w.input);
}

/// Takes the termination outcome of the run on the worker's current input
/// and updates the counters: the crash counter moves exactly on a crash, the
/// case counter moves exactly when this iteration completes a batch, and
/// neither counter ever decreases.
pub fn worker(w: &mut Worker, outcome: &Outcome, stats: &mut Statistics) -> (v: Verdict)
    requires
        old(w).wf(),
        old(stats).crashes < u64::MAX,
        old(stats).fuzz_cases < u64::MAX,
    ensures
        final(w).wf(),
        v.crash == is_crash(*outcome),
        v.batch_done == (old(w).batch_progress + 1 == BATCH_SIZE),
        final(stats).crashes == old(stats).crashes + (if is_crash(*outcome) {
            1int
        } else {
            0int
        }),
        final(stats).fuzz_cases == old(stats).fuzz_cases + (if v.batch_done {
            1int
        } else {
            0int
        }),
        final(stats).crashes >= old(stats).crashes,
        final(stats).fuzz_cases >= old(stats).fuzz_cases,
        final(w).batch_progress == (if v.batch_done {
            0int
        } else {
            old(w).batch_progress + 1
        }),
        final(w).rng == old(w).rng,
        final(w).input == old(w).input,
{
    let crash = classify(outcome);
    if crash {
        stats.crashes = stats.crashes + 1;
    }
    let batch_done = w.batch_progress + 1 == BATCH_SIZE;
    if batch_done {
        stats.fuzz_cases = stats.fuzz_cases + 1;
        w.batch_progress = 0;
    } else {
        w.batch_progress = w.batch_progress + 1;
    }
    Verdict { crash, batch_done }
}

} // verus!
