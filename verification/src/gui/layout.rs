//! The control bar's buttons. Where they sit on screen is drawing, done by
//! the graphical front-end.
use vstd::prelude::*;

verus! {

/// An on-screen control-bar button.
#[derive(Clone, Copy, PartialEq, Eq, Debug, Structural)]
pub enum ButtonId {
    Undo,
    New,
}

} // verus!
