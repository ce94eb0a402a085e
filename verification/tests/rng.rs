//! Tests of the rng module.
use klondike::model::rng::SplitMix64;

#[test]
fn same_seed_same_sequence() {
    let mut a = SplitMix64::new(42);
    let mut b = SplitMix64::new(42);
    for _ in 0..1000 {
        assert_eq!(a.next_u64(), b.next_u64());
    }
}

#[test]
fn different_seeds_differ() {
    let mut a = SplitMix64::new(1);
    let mut b = SplitMix64::new(2);
    // Extremely unlikely to collide on the very first draw.
    assert_ne!(a.next_u64(), b.next_u64());
}

#[test]
fn next_below_in_range() {
    let mut r = SplitMix64::new(7);
    for _ in 0..10_000 {
        let v = r.next_below(52);
        assert!(v < 52);
    }
}
