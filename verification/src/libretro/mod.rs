//! Embedded libretro emulation: the decisions a frontend makes about a core,
//! its pictures, its saves and the files it is handed.

pub mod audio;
pub mod content;
pub mod host;
pub mod cores;
pub mod emu;
pub mod saves;
pub mod sys;
pub mod video;
