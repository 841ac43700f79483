pub mod board;
pub mod classic;
pub mod direction;
pub mod game;
pub mod ghost;
pub mod laws;

pub use board::{BoardError, Tile};
pub use direction::{Direction, GameError, Position};
pub use game::{GameState, Pacman};
pub use ghost::{GhostAgent, Mode, Personality};
