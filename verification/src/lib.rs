//! The rules of a terminal PacMan game: the maze, the player, the ghosts and
//! the frame-by-frame game state, each with its contract.

pub mod game;
pub mod ghost;
pub mod grid;
pub mod map;
pub mod play;
pub mod maze;
pub mod player;
