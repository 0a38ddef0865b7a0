use rust_fuzzer::rng::Rng;
use rust_fuzzer::rng::SEED_MIX;

#[test]
fn first_draw_returns_the_mixed_seed() {
    let mut rng = Rng::new(0);
    assert_eq!(rng.rand(), SEED_MIX);
}

#[test]
fn exact_output_sequence_from_entropy_one() {
    let mut rng = Rng::new(1);
    assert_eq!(rng.rand(), 0x6fa1bed31f2e77dc);
    assert_eq!(rng.rand(), 0x2c82410b3f4e9f36);
    assert_eq!(rng.rand(), 0xade804b37fd92962);
    assert_eq!(rng.rand(), 0x275efdf76f514418);
}

#[test]
fn equal_seeds_give_equal_streams() {
    let mut a = Rng::new(0xdeadbeef);
    let mut b = Rng::new(0xdeadbeef);
    for _ in 0..50 {
        assert_eq!(a.rand(), b.rand());
    }
}

#[test]
fn replaying_a_seed_reproduces_the_stream() {
    let mut first: Vec<u64> = Vec::new();
    let mut rng = Rng::new(99);
    for _ in 0..20 {
        first.push(rng.rand());
    }
    let mut rng2 = Rng::new(99);
    for expected in first {
        assert_eq!(rng2.rand(), expected);
    }
}
