//! Tests of the solvability indicator's dialog policy.
use klondike::gui::layout::ButtonId;
use klondike::gui::solver::{Indicator, Status};
use klondike::Verdict;
use klondike::gui::settings::Settings;
use klondike::gui::solver::Assist;
use klondike::{Card, DrawMode, Foundation, GameConfig, GameState, Rank, Suit};

#[test]
fn unwinnable_opens_the_dialog_once_per_streak() {
    let mut i = Indicator::new();
    assert_eq!(i.status, Status::Unknown);
    assert!(i.uncertain());
    i.checking();
    assert_eq!(i.status, Status::Checking);
    assert!(!i.uncertain());
    i.settle(Verdict::Unwinnable);
    assert_eq!(i.status, Status::Unwinnable);
    assert!(i.dialog_open);
    i.dismiss_dialog();
    assert!(!i.dialog_open);
    // Forward play through unknown positions keeps the streak dismissed.
    i.forget();
    assert_eq!(i.status, Status::Unknown);
    i.settle(Verdict::Unwinnable);
    assert!(!i.dialog_open, "Continue keeps the dialog shut for the streak");
    // Solvability returns: the next unwinnable verdict warns again.
    i.settle(Verdict::Solvable);
    assert_eq!(i.status, Status::Solvable);
    assert!(!i.dismissed_streak);
    i.settle(Verdict::Unwinnable);
    assert!(i.dialog_open);
}

#[test]
fn inconclusive_is_uncertain_and_leaves_the_dialog() {
    let mut i = Indicator::new();
    i.settle(Verdict::Inconclusive);
    assert_eq!(i.status, Status::Inconclusive);
    assert!(i.uncertain());
    assert!(!i.dialog_open);
    assert_ne!(ButtonId::Undo, ButtonId::New);
}


fn won_state() -> GameState {
    let mut g = GameState::new_with_seed(0, GameConfig::default());
    g.stock = Default::default();
    g.waste = Default::default();
    g.tableau = Default::default();
    for (i, suit) in [Suit::Clubs, Suit::Diamonds, Suit::Hearts, Suit::Spades]
        .into_iter()
        .enumerate()
    {
        let mut f = Foundation::new();
        for r in Rank::ALL {
            f.push(Card::new(r, suit).face_up());
        }
        g.foundations[i] = f;
    }
    g
}

#[test]
fn assist_checks_a_deal_and_remembers_the_answer() {
    let won = won_state();
    let mut a = Assist::new(&won);
    assert_eq!(a.status(), Status::Checking);
    a.update(&won);
    assert_eq!(a.status(), Status::Solvable);
    assert!(!a.dialog_open());
    // Another position is unknown until checked; coming back resolves at once.
    let fresh = GameState::new_with_seed(4, GameConfig::default());
    a.on_state_change(&fresh);
    assert_eq!(a.status(), Status::Unknown);
    a.on_state_change(&won);
    assert_eq!(a.status(), Status::Solvable);
    // A new deal forgets what was decided and starts checking it.
    a.reset(&fresh);
    assert_eq!(a.status(), Status::Checking);
    for _ in 0..10_000 {
        a.update(&fresh);
        if a.status() != Status::Checking {
            break;
        }
    }
    assert_ne!(a.status(), Status::Checking);
    a.note_activity();
    a.dismiss_dialog();
    assert!(!a.dialog_open());
}

#[test]
fn settings_follow_the_draw_mode() {
    let three = Settings::from_config(GameConfig::default());
    assert!(three.draw_three && three.solver_enabled && three.show_seed);
    let one = Settings {
        draw_three: false,
        ..three
    };
    let c = one.game_config(GameConfig {
        draw_mode: DrawMode::Three,
        redeal_limit: Some(2),
        timed: true,
    });
    assert_eq!(c.draw_mode, DrawMode::One);
    assert_eq!(c.redeal_limit, Some(2));
    assert!(c.timed);
}
