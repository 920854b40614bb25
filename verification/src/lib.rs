//! A terminal fire / contribution-graph animation driven by an event count.
//!
//! The heart of the crate is a heat cellular automaton: heat is injected at
//! the bottom row of a grid, then diffused upward and cooled each tick.
//! Heat values are mapped to glyphs and colors, and an optional two-line
//! text ticker scrolls over the bottom rows.

pub mod heat;
pub mod palette;
pub mod render;
pub mod ticker;
pub mod control;
pub mod engine;
pub mod events;
