//! Pieces of the graphical front-end that decide without drawing.

pub mod args;
pub mod board;
pub mod frame;
pub mod input;
pub mod layout;
pub mod overlay;
pub mod session;
pub mod settings;
pub mod solver;
pub mod store;
