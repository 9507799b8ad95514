//! The game rules of the Kaiju 2D benchmark: the menu/benchmark mode machine,
//! the target object count, the per-frame population plan, the spatial grid
//! that proposes collision pairs, and the sprite frame choices.
//!
//! Rendering, the user interface, sound, floating-point motion and the
//! collision response live with the engine, outside this crate.

pub mod game;
pub mod grid;
pub mod population;
pub mod sprites;
