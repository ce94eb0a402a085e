//! The interactive terminal game's logic: key → pile mapping, move resolution,
//! the game session, and the `--solve` report. Nothing here touches the
//! terminal; the program around the library does the I/O.
use vstd::prelude::*;
use vstd::string::StringExecFns;

pub mod input;
pub mod render;
pub mod session;
pub mod solve;

use crate::model::state::{DrawMode, GameConfig};
use crate::model::text::{decimal_text, push_decimal};

verus! {

/// A pile the player can address with a key. Tableau columns are `0..7`,
/// foundations `0..4`; `StockWaste` is the stock/waste corner.
#[derive(Debug, Clone, Copy, PartialEq, Eq, Structural)]
pub enum Pile {
    Tableau(usize),
    Foundation(usize),
    StockWaste,
}

/// What the main loop should do after handling a key.
#[derive(Debug, Clone, Copy, PartialEq, Eq, Structural)]
pub enum Signal {
    /// Keep looping.
    Continue,
    /// Exit the game.
    Quit,
}

/// The configuration the flags select, or why they are refused: `draw` must
/// be 1 or 3.
pub open spec fn config_for(draw: u8, timed: bool, redeal: Option<u32>) -> Result<GameConfig, Seq<char>> {
    if draw == 1 {
        Ok(GameConfig { draw_mode: DrawMode::One, redeal_limit: redeal, timed })
    } else if draw == 3 {
        Ok(GameConfig { draw_mode: DrawMode::Three, redeal_limit: redeal, timed })
    } else {
        Err("--draw must be 1 or 3 (got "@ + decimal_text(draw as nat) + ")"@)
    }
}

/// Translate command-line values into a `GameConfig`, validating enumerated values.
pub fn build_config(draw: u8, timed: bool, redeal: Option<u32>) -> (r: Result<GameConfig, String>)
    ensures
        match (r, config_for(draw, timed, redeal)) {
            (Ok(c), Ok(c2)) => c == c2,
            (Err(e), Err(e2)) => e@ == e2,
            _ => false,
        },
{
    let draw_mode = match draw {
        1 => DrawMode::One,
        3 => DrawMode::Three,
        other => {
            let mut msg = String::new();
            msg.append("--draw must be 1 or 3 (got ");
            push_decimal(&mut msg, other as u64);
            msg.append(")");
            assert(msg@ =~= "--draw must be 1 or 3 (got "@ + decimal_text(draw as nat) + ")"@);
            return Err(msg);
        },
    };
    Ok(GameConfig { draw_mode, redeal_limit: redeal, timed })
}

} // verus!
