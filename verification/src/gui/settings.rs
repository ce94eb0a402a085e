//! The graphical front-end's in-session settings (not persisted across
//! launches).
use vstd::prelude::*;

use crate::model::state::{DrawMode, GameConfig};

verus! {

/// In-session settings.
#[derive(Clone, Copy, PartialEq, Eq, Debug, Structural)]
pub struct Settings {
    pub draw_three: bool,
    pub solver_enabled: bool,
    pub show_seed: bool,
}

impl Settings {
    /// The settings a launch configuration starts with: its draw mode, the
    /// solver on and the seed shown.
    pub fn from_config(cfg: GameConfig) -> (s: Settings)
        ensures
            s == (Settings { draw_three: cfg.draw_mode == DrawMode::Three, solver_enabled: true, show_seed: true }),
    {
        Settings {
            draw_three: match cfg.draw_mode {
                DrawMode::Three => true,
                DrawMode::One => false,
            },
            solver_enabled: true,
            show_seed: true,
        }
    }

    /// The game config for a new deal, applying the chosen draw mode.
    pub fn game_config(&self, base: GameConfig) -> (c: GameConfig)
        ensures
            c == (GameConfig {
                draw_mode: if self.draw_three {
                    DrawMode::Three
                } else {
                    DrawMode::One
                },
                ..base
            }),
    {
        GameConfig {
            draw_mode: if self.draw_three {
                DrawMode::Three
            } else {
                DrawMode::One
            },
            ..base
        }
    }
}

} // verus!
