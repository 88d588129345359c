pub mod cards;
pub mod game;
pub mod knowledge;
pub mod laws;
pub mod pile;
mod rng;
