//! A RomM library client: the rules behind browsing, downloading and playing
//! a game, with their contracts proved by Verus.

pub mod api;
pub mod paths;
pub mod text;
pub mod browse;
pub mod config;
pub mod launch;
pub mod libretro;
pub mod input;
pub mod logging;
pub mod models;
pub mod play;
pub mod sidebar;
