//! The game's top-level state, as a module of its own.
pub use crate::game::GameState;
