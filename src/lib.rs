//! Interaction core of a small multiplayer voxel world: a chunked block grid,
//! the sessions of connected players, and the handlers that dig and place
//! blocks according to each player's game mode.

pub mod block;
pub mod grid;
pub mod bootstrap;
pub mod session;
pub mod handlers;
pub mod tick;


