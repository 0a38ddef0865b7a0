//! Core logic of a mutation-based fuzzing harness.
//!
//! The library holds the deterministic heart of the fuzzer: the xorshift
//! pseudo-random generator, the deduplicated seed corpus, the byte-level
//! mutator, crash classification by terminating signal, content-addressed
//! crash artifact naming, and the per-worker batch accounting of statistics.
//! Process management, file I/O and thread plumbing live outside, in the
//! binary that drives this library.

pub mod corpus;
pub mod crash;
pub mod mutation;
pub mod rng;
pub mod worker;

pub use corpus::Corpus;
pub use corpus::CorpusError;
pub use crash::Outcome;
pub use rng::Rng;
pub use worker::Statistics;
pub use worker::Verdict;
pub use worker::Worker;
pub use worker::prepare_case;
pub use worker::worker;
