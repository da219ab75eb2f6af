# noise_gen_rs

Procedural noise (Perlin, simplex, Worley, fractal layering) split into two parts:

- `src/`: the verified integer core, written in Verus: lattice hashing
  (`util::hash`, `util::hash3`), the seed scrambler, the seeded permutation tables
  (each proved to hold every byte exactly once), gradient selection for Perlin and
  simplex cells, the 3D simplex traversal, the Worley neighbourhood listing and the
  nearest-two search.
- `app/`: the floating-point sampling on top of it (`fade`, `lerp`, the noise
  evaluators, distance metrics and the fBm octave sums), exposed through traits
  implemented for the library's generator types.
