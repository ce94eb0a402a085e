//! Tests of the stored records' field text.
use klondike::gui::store::{
    load_counters, load_high_score, save_counters, save_high_score, Counters, HighScore,
};

#[test]
fn high_score_round_trips() {
    let h = HighScore {
        score: 1234,
        time_secs: 87,
        achieved_at: 1_700_000_000,
    };
    assert_eq!(HighScore::parse(&h.to_field()), Some(h));
    // Negative scores are valid.
    let n = HighScore {
        score: -52,
        time_secs: 0,
        achieved_at: 1,
    };
    assert_eq!(HighScore::parse(&n.to_field()), Some(n));
}

#[test]
fn malformed_high_score_is_none() {
    assert_eq!(HighScore::parse(""), None);
    assert_eq!(HighScore::parse("1|2"), None);
    assert_eq!(HighScore::parse("x|2|3"), None);
    assert_eq!(HighScore::parse("1|two|3"), None);
}

#[test]
fn counters_round_trip_and_tolerant() {
    let c = Counters {
        wins: 7,
        new_games: 42,
    };
    assert_eq!(Counters::parse(&c.to_field()), c);
    // Malformed/empty fall back to zero without error.
    assert_eq!(Counters::parse(""), Counters::default());
    assert_eq!(Counters::parse("9"), Counters { wins: 9, new_games: 0 });
    assert_eq!(Counters::parse("bad|data"), Counters::default());
}

#[test]
fn stored_high_score_loads_and_saves_under_its_key() {
    let h = HighScore { score: 640, time_secs: 301, achieved_at: 1_700_000_123 };
    let (key, text) = save_high_score(&h);
    assert_eq!(key, "highscore.v1");
    assert_eq!(text, "640|301|1700000123");
    assert_eq!(load_high_score(Some(text.as_str())), Some(h));
    assert_eq!(load_high_score(None), None);
    assert_eq!(load_high_score(Some("garbage")), None);
}

#[test]
fn stored_counters_load_and_save_under_their_key() {
    let c = Counters { wins: 3, new_games: 11 };
    let (key, text) = save_counters(&c);
    assert_eq!(key, "stats.v1");
    assert_eq!(text, "3|11");
    assert_eq!(load_counters(Some(text.as_str())), c);
    assert_eq!(load_counters(None), Counters::default());
    assert_eq!(load_counters(Some("5|x")), Counters { wins: 5, new_games: 0 });
}
