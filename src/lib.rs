//! Reading of WAD archives and of the palette and picture lumps they hold.

pub mod bytes;
pub mod error;
pub mod palette;
pub mod picture;
pub mod wad;
pub mod audio;
pub mod game;
pub mod game_state;
pub mod menu;
