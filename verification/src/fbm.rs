//! Fractal Brownian Motion: layering octaves of a base noise.

use vstd::prelude::*;

verus! {

/// Fractal Brownian Motion generator: sums several octaves of a base noise at
/// increasing frequencies and decreasing amplitudes. The octave sums work on
/// floating-point samples of the base noise and are provided outside this crate.
pub struct FractalBrownianMotion;

} // verus!
