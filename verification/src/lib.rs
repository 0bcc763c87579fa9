//! A small artificial-life ecosystem engine: mobile agents governed by
//! steering behaviours (seek / arrive / flee / wander) consume food, avoid
//! poison, reproduce with mutated traits, and die of starvation or
//! poisoning.
//!
//! All quantities are fixed-point scalars: an `i64` carrying one
//! thousandth of a unit, so that the whole engine is exact integer
//! arithmetic. Rendering, windowing and input stay outside the library;
//! callers feed it environment bounds, elapsed time and a random source,
//! and read the live entities back for display.

pub mod fx;
pub mod vec2;
pub mod rng;
pub mod dna;
pub mod food;
pub mod steering_agent;
pub mod world;
