//! A library for generating world maps: a generic grid of cells is filled
//! from noise parameters and turned into colors through a configurable,
//! band-based color evaluator.
//!
//! Scalar factors such as elevation and moisture are carried as fixed-point
//! integers: counts of millionths of the real value (see [`utils::SCALE`]).

pub mod biomes;
pub mod cell;
pub mod color;
pub mod config;
pub mod grid;
pub mod img;
pub mod utils;
