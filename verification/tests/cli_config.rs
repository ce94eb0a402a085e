//! Tests of the command-line configuration and the terminal board's text.
use klondike::cli::build_config;
use klondike::cli::render::fmt_time;
use klondike::DrawMode;

#[test]
fn time_formatting() {
    assert_eq!(fmt_time(0), "00:00");
    assert_eq!(fmt_time(9), "00:09");
    assert_eq!(fmt_time(83), "01:23");
    assert_eq!(fmt_time(600), "10:00");
}

#[test]
fn build_config_draw_modes() {
    assert_eq!(
        build_config(3, false, None).unwrap().draw_mode,
        DrawMode::Three
    );
    assert_eq!(
        build_config(1, false, None).unwrap().draw_mode,
        DrawMode::One
    );
}

#[test]
fn build_config_rejects_bad_draw() {
    assert!(build_config(2, false, None).is_err());
    assert!(build_config(0, false, None).is_err());
}

#[test]
fn build_config_passes_flags() {
    let c = build_config(1, true, Some(2)).unwrap();
    assert!(c.timed);
    assert_eq!(c.redeal_limit, Some(2));
}

/// The values `--seed 42 --draw 1 --timed` and `--seed <proquint of 2024>`
/// hand the library: the seed text decodes, the draw and timing make the
/// configuration.
#[test]
fn args_parse_smoke() {
    assert_eq!(klondike::seed::decode("42"), Some(42));
    let c = build_config(1, true, None).unwrap();
    assert_eq!(c.draw_mode, DrawMode::One);
    assert!(c.timed);

    // A proquint seed argument resolves to the same u64 it encodes.
    let p = klondike::seed::encode(2024);
    assert_eq!(klondike::seed::decode(&p), Some(2024));
}
