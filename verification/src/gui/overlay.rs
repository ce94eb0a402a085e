//! The buttons of the graphical front-end's modal panels, and what pressing
//! them does to the settings. Laying the buttons out on screen is drawing,
//! done by the front-end.
use vstd::prelude::*;

use crate::gui::settings::Settings;
use crate::gui::solver::Status;

verus! {

/// A choice offered by the unwinnable dialog.
#[derive(Clone, Copy, PartialEq, Eq, Debug, Structural)]
pub enum DialogChoice {
    Continue,
    NewGame,
}

/// A button in the solver status overlay.
#[derive(Clone, Copy, PartialEq, Eq, Debug, Structural)]
pub enum SolverAction {
    AutoSolve,
    NewGame,
    Close,
}

/// A row in the Settings dialog.
#[derive(Clone, Copy, PartialEq, Eq, Debug, Structural)]
pub enum SettingRow {
    DrawMode,
    Solver,
    Seed,
    Close,
}

/// The buttons the solver overlay offers, left to right: only Close while the
/// solver is off; Auto-solve and Close for a solvable position whose line is
/// known; New game and Close for an unwinnable one; else only Close.
pub open spec fn overlay_actions_spec(status: Status, has_solution: bool, enabled: bool) -> Seq<SolverAction> {
    if !enabled {
        seq![SolverAction::Close]
    } else if status == Status::Solvable && has_solution {
        seq![SolverAction::AutoSolve, SolverAction::Close]
    } else if status == Status::Unwinnable {
        seq![SolverAction::NewGame, SolverAction::Close]
    } else {
        seq![SolverAction::Close]
    }
}

/// The buttons the solver overlay offers for a status, left to right.
pub fn solver_overlay_actions(status: Status, has_solution: bool, enabled: bool) -> (r: Vec<SolverAction>)
    ensures
        r@ == overlay_actions_spec(status, has_solution, enabled),
{
    let r = if !enabled {
        vec![SolverAction::Close]
    } else {
        match status {
            Status::Solvable if has_solution => vec![SolverAction::AutoSolve, SolverAction::Close],
            Status::Unwinnable => vec![SolverAction::NewGame, SolverAction::Close],
            _ => vec![SolverAction::Close],
        }
    };
    assert(r@ =~= overlay_actions_spec(status, has_solution, enabled));
    r
}

/// The unwinnable dialog's buttons, left to right.
pub fn dialog_choices() -> (r: Vec<DialogChoice>)
    ensures
        r@ == seq![DialogChoice::Continue, DialogChoice::NewGame],
{
    let r = vec![DialogChoice::Continue, DialogChoice::NewGame];
    assert(r@ =~= seq![DialogChoice::Continue, DialogChoice::NewGame]);
    r
}

/// The Settings dialog's rows, top to bottom, the Close button last.
pub fn settings_rows() -> (r: Vec<SettingRow>)
    ensures
        r@ == seq![SettingRow::DrawMode, SettingRow::Solver, SettingRow::Seed, SettingRow::Close],
{
    let r = vec![SettingRow::DrawMode, SettingRow::Solver, SettingRow::Seed, SettingRow::Close];
    assert(r@ =~= seq![SettingRow::DrawMode, SettingRow::Solver, SettingRow::Seed, SettingRow::Close]);
    r
}

/// The settings after pressing a row: each of the first three rows flips its
/// setting; Close changes nothing.
pub open spec fn pressed(s: Settings, row: SettingRow) -> Settings {
    match row {
        SettingRow::DrawMode => Settings { draw_three: !s.draw_three, ..s },
        SettingRow::Solver => Settings { solver_enabled: !s.solver_enabled, ..s },
        SettingRow::Seed => Settings { show_seed: !s.show_seed, ..s },
        SettingRow::Close => s,
    }
}

impl Settings {
    /// Press a row of the Settings dialog: flip its setting, and say whether
    /// the dialog closes (only the Close row closes it).
    pub fn press(&mut self, row: SettingRow) -> (closes: bool)
        ensures
            *final(self) == pressed(*old(self), row),
            closes == (row == SettingRow::Close),
    {
        match row {
            SettingRow::DrawMode => {
                self.draw_three = !self.draw_three;
                false
            },
            SettingRow::Solver => {
                self.solver_enabled = !self.solver_enabled;
                false
            },
            SettingRow::Seed => {
                self.show_seed = !self.show_seed;
                false
            },
            SettingRow::Close => true,
        }
    }
}

} // verus!
