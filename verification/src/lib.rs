//! Procedural noise generation: Perlin, simplex and Worley noise and fractal
//! layering. This crate holds the integer side of the generators, verified:
//! lattice hashing, the seeded permutation tables, gradient selection, simplex
//! traversal and the nearest-two search of cellular noise.

pub mod fbm;
pub mod perlin;
pub mod simplex;
pub mod util;
pub mod worley;

pub use fbm::FractalBrownianMotion;
pub use perlin::PerlinNoise;
pub use simplex::SimplexNoise;
pub use worley::WorleyNoise;
