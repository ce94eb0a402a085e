//! Tests of the seed module.
use klondike::seed::{decode, encode};

#[test]
fn round_trips_many_seeds() {
    let mut samples = vec![
        0u64,
        1,
        42,
        2024,
        u64::MAX,
        u64::MAX - 1,
        0x0123_4567_89AB_CDEF,
    ];
    // A spread of pseudo-random values via a simple LCG.
    let mut x = 0x9E37_79B9_7F4A_7C15u64;
    for _ in 0..1000 {
        x = x
            .wrapping_mul(6364136223846793005)
            .wrapping_add(1442695040888963407);
        samples.push(x);
    }
    for s in samples {
        let enc = encode(s);
        assert_eq!(decode(&enc), Some(s), "round trip failed for {s} ({enc})");
    }
}

#[test]
fn encoding_is_stable_and_shaped() {
    let e = encode(0);
    assert_eq!(e, "babab-babab-babab-babab");
    // Four five-letter quints joined by three dashes.
    assert_eq!(e.len(), 23);
    assert_eq!(e.matches('-').count(), 3);
}

#[test]
fn distinct_seeds_encode_distinctly() {
    assert_ne!(encode(1), encode(2));
}

#[test]
fn raw_u64_fallback() {
    assert_eq!(decode("42"), Some(42));
    assert_eq!(decode("  2024 "), Some(2024));
    assert_eq!(decode("18446744073709551615"), Some(u64::MAX));
}

#[test]
fn case_insensitive_and_separator_tolerant() {
    let e = encode(0xDEAD_BEEF_1234_5678);
    assert_eq!(decode(&e.to_uppercase()), Some(0xDEAD_BEEF_1234_5678));
    let spaced = e.replace('-', " ");
    assert_eq!(decode(&spaced), Some(0xDEAD_BEEF_1234_5678));
    let undashed = e.replace('-', "");
    assert_eq!(decode(&undashed), Some(0xDEAD_BEEF_1234_5678));
}

#[test]
fn rejects_invalid_input() {
    assert_eq!(decode(""), None);
    assert_eq!(decode("not-a-seed"), None); // valid length shape but bad letters
    assert_eq!(decode("xyzzy"), None);
    assert_eq!(decode("18446744073709551616"), None); // u64::MAX + 1 overflows
    assert_eq!(decode("lusab-babad-gutih"), None); // too short for proquint, not a u64
}

#[test]
fn decimal_seeds_ignore_unicode_white_space_around_them() {
    assert_eq!(klondike::seed::decode("\u{3000}42\u{A0}\t"), Some(42));
    assert_eq!(klondike::seed::decode(" \u{2009}7 "), Some(7));
    assert_eq!(klondike::seed::decode("4 2"), None);
}
