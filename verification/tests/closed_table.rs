//! Tests of the solver's table module.
use klondike::solver::encode::{encode, PositionKey};
use klondike::solver::ClosedTable;
use klondike::{GameConfig, GameState};

fn key_for(seed: u64) -> PositionKey {
    encode(&GameState::new_with_seed(seed, GameConfig::default()))
}

#[test]
fn insert_then_contains() {
    let mut t = ClosedTable::with_capacity(1024);
    let k = key_for(1);
    assert!(!t.contains(&k));
    t.insert(k.clone());
    assert!(t.contains(&k));
}

#[test]
fn no_eviction_below_capacity() {
    // Distinct keys under the cap must all be retained (no collision loss).
    let mut t = ClosedTable::with_capacity(1000);
    for s in 0..500 {
        t.insert(key_for(s));
    }
    assert_eq!(t.evictions(), 0);
    assert_eq!(t.peak_entries(), 500);
    assert!(t.contains(&key_for(0)));
    assert!(t.contains(&key_for(499)));
}

#[test]
fn clears_on_full_and_stays_bounded() {
    // Capacity 1 clears on every new key.
    let mut t = ClosedTable::with_capacity(1);
    let a = key_for(1);
    let b = key_for(2);
    assert_ne!(a, b);
    t.insert(a.clone());
    assert!(t.contains(&a));
    t.insert(b.clone()); // at cap -> clear, then insert b
    assert!(t.contains(&b));
    assert!(!t.contains(&a));
    assert_eq!(t.evictions(), 1);
    assert_eq!(t.peak_entries(), 1);
}

#[test]
fn reinsert_is_idempotent() {
    let mut t = ClosedTable::with_capacity(16);
    let k = key_for(3);
    t.insert(k.clone());
    t.insert(k.clone());
    assert_eq!(t.evictions(), 0);
    assert_eq!(t.peak_entries(), 1);
}
