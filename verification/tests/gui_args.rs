//! Tests of the graphical front-end's command line.
use klondike::gui::args::parse_args;
use klondike::seed::encode;
use klondike::{DrawMode, GameConfig};

fn line(words: &[&str]) -> Vec<String> {
    words.iter().map(|w| w.to_string()).collect()
}

#[test]
fn gui_args_read_every_option() {
    let (seed, config) = parse_args(&line(&[
        "klondike-gui", "--seed", "42", "--draw", "1", "--timed", "--redeal", "2",
    ]));
    assert_eq!(seed, Some(42));
    assert_eq!(
        config,
        GameConfig { draw_mode: DrawMode::One, redeal_limit: Some(2), timed: true }
    );
}

#[test]
fn gui_args_default_to_draw_three_untimed() {
    let (seed, config) = parse_args(&line(&["klondike-gui"]));
    assert_eq!(seed, None);
    assert_eq!(config, GameConfig::default());
}

#[test]
fn gui_args_take_a_proquint_seed() {
    let word = encode(123_456_789);
    let (seed, _) = parse_args(&line(&["klondike-gui", "--seed", word.as_str()]));
    assert_eq!(seed, Some(123_456_789));
}

#[test]
fn gui_args_tolerate_bad_values() {
    let (seed, config) = parse_args(&line(&[
        "klondike-gui", "--draw", "seven", "--redeal", "-1", "--bogus", "--seed",
    ]));
    assert_eq!(seed, None);
    assert_eq!(config.draw_mode, DrawMode::Three);
    assert_eq!(config.redeal_limit, None);
    assert!(!config.timed);
    // The program's own name is never read as an option.
    let (_, config) = parse_args(&line(&["--timed"]));
    assert!(!config.timed);
}
