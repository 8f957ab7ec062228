//! A retained-mode 2D vector-graphics canvas: path building, bezier
//! flattening, stroke and fill tessellation with antialiasing fringes, and a
//! drawing-state stack, emitting triangle geometry through a renderer trait.
//!
//! All geometry is carried in signed 16.16 fixed-point units (see [`fixed`]),
//! so every tessellation decision is integer arithmetic with exact contracts.

pub mod cache;
pub mod color;
pub mod context;
pub mod errors;
pub mod fixed;
pub mod laws;
pub mod math;
pub mod renderer;
pub mod trig;

pub use fixed::FX_ONE;
pub use fixed::FX_MAX;
