//! Chinchón on a text board: the deck of Spanish cards and their pictures, the piles a round
//! is played with, and the rules that move cards between them when keys are pressed.

pub mod art;
pub mod board;
pub mod cards;
pub mod game;
pub mod piles;
