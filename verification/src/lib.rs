//! A search engine for chess positions: move generation, the transition from
//! a position and a move to the next position, and a fixed-depth adversarial
//! search that returns every move with the best guaranteed outcome.

pub mod agreement;
pub mod buffers;
pub mod development;
pub mod fanout;
pub mod game;
pub mod gamestate;
pub mod material;
pub mod moves;
pub mod pieces;
pub mod rules;
pub mod settings;
pub mod simulation;
pub mod utils;
