pub mod card;
pub mod census;
pub mod deal;
pub mod deck;
pub mod enumeration;
pub mod faces;
pub mod invariants;
pub mod laws;
pub mod moves;
pub mod pile;
pub mod rng;
pub mod rules;
pub mod rules_spec;
pub mod score;
pub mod seed;
pub mod state;
pub mod suited;
pub mod text;
