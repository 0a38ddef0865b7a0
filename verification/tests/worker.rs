use rust_fuzzer::corpus::Corpus;
use rust_fuzzer::crash::Outcome;
use rust_fuzzer::crash::crash_artifact_name;
use rust_fuzzer::rng::Rng;
use rust_fuzzer::worker::BATCH_SIZE;
use rust_fuzzer::worker::Statistics;
use rust_fuzzer::worker::Worker;
use rust_fuzzer::worker::prepare_case;
use rust_fuzzer::worker::worker;

fn small_corpus() -> Corpus {
    let entries = vec![b"AA".to_vec(), b"BB".to_vec()];
    Corpus::from_entries(&entries).unwrap()
}

#[test]
fn scenario_always_crashing_target() {
    let corpus = small_corpus();
    let mut w = Worker::new(Rng::new(3));
    let mut stats = Statistics::new();
    let mut store: Vec<Vec<u8>> = Vec::new();
    for _ in 0..10 {
        prepare_case(&mut w, &corpus);
        let v = worker(&mut w, &Outcome::Signaled(11), &mut stats);
        assert!(v.crash);
        let name = crash_artifact_name(&w.input);
        if !store.contains(&name) {
            store.push(name);
        }
    }
    assert_eq!(stats.crashes, 10);
    assert_eq!(stats.fuzz_cases, 1);
    assert!(store.len() >= 1);
}

#[test]
fn scenario_well_behaved_target() {
    let corpus = small_corpus();
    let mut w = Worker::new(Rng::new(4));
    let mut stats = Statistics::new();
    for _ in 0..30 {
        prepare_case(&mut w, &corpus);
        let v = worker(&mut w, &Outcome::Exited(0), &mut stats);
        assert!(!v.crash);
    }
    assert_eq!(stats.crashes, 0);
    assert_eq!(stats.fuzz_cases, 3);
}

#[test]
fn counters_grow_monotonically_and_batch_exactly() {
    let corpus = small_corpus();
    let mut w = Worker::new(Rng::new(5));
    let mut stats = Statistics::new();
    let mut prev_cases = 0;
    let mut prev_crashes = 0;
    for i in 0..45u64 {
        prepare_case(&mut w, &corpus);
        let outcome = if i % 3 == 0 { Outcome::Signaled(11) } else { Outcome::Exited(0) };
        let v = worker(&mut w, &outcome, &mut stats);
        assert!(stats.fuzz_cases >= prev_cases);
        assert!(stats.crashes >= prev_crashes);
        // The case counter moves exactly once per completed batch.
        assert_eq!(v.batch_done, (i + 1) % BATCH_SIZE == 0);
        assert_eq!(stats.fuzz_cases, (i + 1) / BATCH_SIZE);
        prev_cases = stats.fuzz_cases;
        prev_crashes = stats.crashes;
    }
    assert_eq!(stats.crashes, 15);
}

#[test]
fn prepared_input_copies_a_seed_before_mutation() {
    let entries = vec![b"0123456789".to_vec(), b"abcdefghij".to_vec()];
    let corpus = Corpus::from_entries(&entries).unwrap();
    let mut w = Worker::new(Rng::new(8));
    prepare_case(&mut w, &corpus);
    // The scratch buffer has the length of some corpus seed.
    assert_eq!(w.input.len(), 10);
    // At most eight positions differ from each seed it could have come from.
    let close_to_some_seed = entries.iter().any(|seed| {
        w.input.iter().zip(seed.iter()).filter(|(a, b)| a != b).count() <= 8
    });
    assert!(close_to_some_seed);
}
