//! Playfield layouts, one module for each game mode that can be drawn.

pub mod mania;
pub mod projection;
