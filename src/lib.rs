//! Game-state core of a two-player tic-tac-toe game: the players, the 3x3
//! board with its winning lines, the turn controller, the move orchestration
//! and the mapping from pointer positions to cells.

pub mod board;
pub mod game;
pub mod grid;
pub mod player;
pub mod turn;

pub use board::{Board, PlaceError};
pub use game::{Game, GameModel, MoveOutcome, Status};
pub use grid::cell_at;
pub use player::Turn;
pub use turn::TurnController;
