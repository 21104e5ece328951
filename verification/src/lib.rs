//! Core of a chunked falling-sand particle world: a typed particle model,
//! fixed-size chunks of cells, an interaction rule table, a fluid-movement
//! step, a cross-chunk move queue, and a procedural terrain generator.
pub mod chunk;
pub mod coords;
pub mod fluid;
pub mod generator;
pub mod interaction;
pub mod particle;
pub mod queue;
mod rng;
pub mod world;
