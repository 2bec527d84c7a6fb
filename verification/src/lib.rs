//! Layout solving and templated status text for a terminal music-player client.
//!
//! The crate turns a configuration tree (widgets, text templates, conditions and
//! style patches) and a snapshot of the player into a render plan: styled text
//! fragments placed in rectangles.

pub mod style;
pub mod player;
pub mod config;
pub mod cond;
pub mod text;
pub mod layout;
pub mod queue;
pub mod render;
pub mod state;
