//! Snake game logic: the single-player board, the two-player host simulation,
//! the relay's matchmaking rules and the menus' key handling.

pub mod board;
mod chance;
pub mod flow;
pub mod game;
pub mod guest;
pub mod host;
pub mod keys;
pub mod messages;
pub mod relay;
pub mod screens;
pub mod session;
pub mod snake;
pub mod text;
pub mod types;
