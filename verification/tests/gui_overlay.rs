//! Tests of the modal panels' buttons and of a played-back move's source.
use klondike::gui::input::{queued_source, Source};
use klondike::gui::overlay::{
    dialog_choices, settings_rows, solver_overlay_actions, DialogChoice, SettingRow, SolverAction,
};
use klondike::gui::settings::Settings;
use klondike::gui::solver::Status;
use klondike::{GameConfig, GameState, Move};

#[test]
fn solver_overlay_offers_actions_by_status() {
    assert_eq!(
        solver_overlay_actions(Status::Solvable, true, true),
        vec![SolverAction::AutoSolve, SolverAction::Close]
    );
    assert_eq!(solver_overlay_actions(Status::Solvable, false, true), vec![SolverAction::Close]);
    assert_eq!(
        solver_overlay_actions(Status::Unwinnable, false, true),
        vec![SolverAction::NewGame, SolverAction::Close]
    );
    assert_eq!(solver_overlay_actions(Status::Checking, true, true), vec![SolverAction::Close]);
    assert_eq!(solver_overlay_actions(Status::Unwinnable, true, false), vec![SolverAction::Close]);
}

#[test]
fn dialog_and_settings_rows_in_order() {
    assert_eq!(dialog_choices(), vec![DialogChoice::Continue, DialogChoice::NewGame]);
    assert_eq!(
        settings_rows(),
        vec![SettingRow::DrawMode, SettingRow::Solver, SettingRow::Seed, SettingRow::Close]
    );
}

#[test]
fn pressing_settings_rows_flips_them() {
    let mut s = Settings { draw_three: true, solver_enabled: true, show_seed: true };
    assert!(!s.press(SettingRow::DrawMode));
    assert!(!s.draw_three);
    assert!(!s.press(SettingRow::Solver));
    assert!(!s.solver_enabled);
    assert!(!s.press(SettingRow::Seed));
    assert!(!s.show_seed);
    let before = s;
    assert!(s.press(SettingRow::Close));
    assert_eq!(s, before);
    assert!(!s.press(SettingRow::DrawMode));
    assert!(s.draw_three);
}

#[test]
fn queued_moves_pick_up_from_their_source() {
    let g = GameState::new_with_seed(7, GameConfig::default());
    assert_eq!(queued_source(&g, &Move::Draw), None);
    assert_eq!(queued_source(&g, &Move::Recycle), None);
    assert_eq!(queued_source(&g, &Move::WasteToTableau { column: 3 }), Some(Source::Waste));
    assert_eq!(
        queued_source(&g, &Move::FoundationToTableau { foundation: 2, column: 0 }),
        Some(Source::Foundation(2))
    );
    // Column 4 holds five cards after the deal.
    assert_eq!(
        queued_source(&g, &Move::TableauToFoundation { column: 4, foundation: 0 }),
        Some(Source::TableauRun { col: 4, index: 4 })
    );
    assert_eq!(
        queued_source(&g, &Move::TableauToTableau { from: 4, to: 1, count: 2 }),
        Some(Source::TableauRun { col: 4, index: 3 })
    );
    // Asking for more cards than the column holds starts at its bottom.
    assert_eq!(
        queued_source(&g, &Move::TableauToTableau { from: 0, to: 1, count: 3 }),
        Some(Source::TableauRun { col: 0, index: 0 })
    );
}
