//! Deterministic procedural terrain generation: simplex noise over a skewed
//! lattice, fractal octave summation, seamless tiling, and biome
//! classification, all in exact fixed-point arithmetic so that every layer is
//! a proven function of the seed and the query point.

pub mod fp;
pub mod seed;
pub mod noise;
pub mod simplex;
pub mod octave;
pub mod tiling;
pub mod terrain;
pub mod geometry;
pub mod world;
pub mod object;
