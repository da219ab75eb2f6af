//! The lattice side of Perlin gradient noise: which gradient direction sits at
//! each corner of the cell that holds a sample point.

use vstd::prelude::*;
use crate::util::{
    gradient_2d, gradient_3d, gradients_2d, gradients_3d, hash, hash3, hash3_spec, hash_spec,
    is_cube_edge_midpoint, is_unit_direction_2d, lemma_gradients_2d_are_the_eight_directions,
    lemma_gradients_3d_are_the_cube_edge_midpoints,
};

verus! {

/// The gradient at lattice point `(x, y)` for `seed`.
pub open spec fn lattice_gradient_2d(seed: u64, x: int, y: int) -> (i8, i8) {
    gradients_2d()[(hash_spec(seed, x as i64, y as i64) % 8) as int]
}

/// The gradient at lattice point `(x, y, z)` for `seed`.
pub open spec fn lattice_gradient_3d(seed: u64, x: int, y: int, z: int) -> (i8, i8, i8) {
    gradients_3d()[(hash3_spec(seed, x as i64, y as i64, z as i64) % 12) as int]
}

/// Corner `c` of the 2D cell whose lowest corner is `(xi, yi)`: bit 0 of `c`
/// steps along x, bit 1 along y.
pub open spec fn cell_corner_gradient_2d(seed: u64, xi: int, yi: int, c: int) -> (i8, i8) {
    lattice_gradient_2d(seed, xi + c % 2, yi + c / 2)
}

/// Corner `c` of the 3D cell whose lowest corner is `(xi, yi, zi)`: bits 0, 1
/// and 2 of `c` step along x, y and z.
pub open spec fn cell_corner_gradient_3d(seed: u64, xi: int, yi: int, zi: int, c: int) -> (i8, i8, i8) {
    lattice_gradient_3d(seed, xi + c % 2, yi + (c / 2) % 2, zi + c / 4)
}

/// Perlin noise generator with a configurable seed.
#[derive(Debug, Clone)]
pub struct PerlinNoise {
    seed: u64,
}

impl View for PerlinNoise {
    type V = u64;

    /// A Perlin generator is determined by its seed.
    closed spec fn view(&self) -> u64 {
        self.seed
    }
}

impl PerlinNoise {
    /// Creates a generator with the given seed. The same seed always yields the
    /// same generator, and so identical output.
    pub fn new(seed: u64) -> (n: Self)
        ensures
            n@ == seed,
    {
        PerlinNoise { seed }
    }

    /// The seed this generator was created with.
    pub fn seed(&self) -> (s: u64)
        ensures
            s == self@,
    {
        self.seed
    }

    /// The gradients at the four corners of the 2D cell whose lowest corner is
    /// `(xi, yi)`, in the order `(xi, yi)`, `(xi + 1, yi)`, `(xi, yi + 1)`,
    /// `(xi + 1, yi + 1)`.
    pub fn corner_gradients_2d(&self, xi: i64, yi: i64) -> (g: [(i8, i8); 4])
        requires
            xi < i64::MAX,
            yi < i64::MAX,
        ensures
            forall|c: int| 0 <= c < 4 ==> #[trigger] g[c] == cell_corner_gradient_2d(self@, xi as int, yi as int, c),
            forall|c: int| 0 <= c < 4 ==> #[trigger] g[c] == gradients_2d()[(hash_spec(
                self@,
                (xi + c % 2) as i64,
                (yi + c / 2) as i64,
            ) % 8) as int],
    {
        let g00 = gradient_2d(hash(self.seed, xi, yi) % 8);
        let g10 = gradient_2d(hash(self.seed, xi + 1, yi) % 8);
        let g01 = gradient_2d(hash(self.seed, xi, yi + 1) % 8);
        let g11 = gradient_2d(hash(self.seed, xi + 1, yi + 1) % 8);
        let g = [g00, g10, g01, g11];
        assert forall|c: int| 0 <= c < 4 implies #[trigger] g[c] == cell_corner_gradient_2d(self@, xi as int, yi as int, c) by {
            if c == 0 {
            } else if c == 1 {
            } else if c == 2 {
            } else {
            }
        }
        g
    }

    /// The gradients at the eight corners of the 3D cell whose lowest corner is
    /// `(xi, yi, zi)`; corner `c` lies at `(xi + c % 2, yi + (c / 2) % 2, zi + c / 4)`.
    pub fn corner_gradients_3d(&self, xi: i64, yi: i64, zi: i64) -> (g: [(i8, i8, i8); 8])
        requires
            xi < i64::MAX,
            yi < i64::MAX,
            zi < i64::MAX,
        ensures
            forall|c: int| 0 <= c < 8 ==> #[trigger] g[c] == cell_corner_gradient_3d(self@, xi as int, yi as int, zi as int, c),
            forall|c: int| 0 <= c < 8 ==> #[trigger] g[c] == gradients_3d()[(hash3_spec(
                self@,
                (xi + c % 2) as i64,
                (yi + (c / 2) % 2) as i64,
                (zi + c / 4) as i64,
            ) % 12) as int],
    {
        let s = self.seed;
        let g = [
            gradient_3d(hash3(s, xi, yi, zi) % 12),
            gradient_3d(hash3(s, xi + 1, yi, zi) % 12),
            gradient_3d(hash3(s, xi, yi + 1, zi) % 12),
            gradient_3d(hash3(s, xi + 1, yi + 1, zi) % 12),
            gradient_3d(hash3(s, xi, yi, zi + 1) % 12),
            gradient_3d(hash3(s, xi + 1, yi, zi + 1) % 12),
            gradient_3d(hash3(s, xi, yi + 1, zi + 1) % 12),
            gradient_3d(hash3(s, xi + 1, yi + 1, zi + 1) % 12),
        ];
        assert forall|c: int| 0 <= c < 8 implies #[trigger] g[c] == cell_corner_gradient_3d(self@, xi as int, yi as int, zi as int, c) by {
            if c == 0 {
            } else if c == 1 {
            } else if c == 2 {
            } else if c == 3 {
            } else if c == 4 {
            } else if c == 5 {
            } else if c == 6 {
            } else {
            }
        }
        g
    }
}

/// Neighbouring cells agree on the gradients of the corners they share,
/// which is what makes the interpolated noise continuous across cell borders.
/// The right edge of cell `(xi, yi)` is the left edge of cell `(xi + 1, yi)`,
/// and its top edge is the bottom edge of cell `(xi, yi + 1)`.
pub proof fn lemma_shared_corners_2d(seed: u64, xi: int, yi: int)
    ensures
        cell_corner_gradient_2d(seed, xi, yi, 1) == cell_corner_gradient_2d(seed, xi + 1, yi, 0),
        cell_corner_gradient_2d(seed, xi, yi, 3) == cell_corner_gradient_2d(seed, xi + 1, yi, 2),
        cell_corner_gradient_2d(seed, xi, yi, 2) == cell_corner_gradient_2d(seed, xi, yi + 1, 0),
        cell_corner_gradient_2d(seed, xi, yi, 3) == cell_corner_gradient_2d(seed, xi, yi + 1, 1),
{
}

/// Neighbouring 3D cells agree on the gradients of the corners they share
/// across each of the three faces.
pub proof fn lemma_shared_corners_3d(seed: u64, xi: int, yi: int, zi: int, c: int)
    requires
        0 <= c < 8,
    ensures
        c % 2 == 1 ==> cell_corner_gradient_3d(seed, xi, yi, zi, c) == cell_corner_gradient_3d(seed, xi + 1, yi, zi, c - 1),
        (c / 2) % 2 == 1 ==> cell_corner_gradient_3d(seed, xi, yi, zi, c) == cell_corner_gradient_3d(seed, xi, yi + 1, zi, c - 2),
        c / 4 == 1 ==> cell_corner_gradient_3d(seed, xi, yi, zi, c) == cell_corner_gradient_3d(seed, xi, yi, zi + 1, c - 4),
{
}

/// Each lattice point takes the 2D gradient whose index is its hash (under the
/// generator's seed) modulo the eight table entries, so all eight directions,
/// diagonals included, occur; and every lattice gradient is a unit direction.
pub proof fn lemma_lattice_gradient_2d_by_hash(seed: u64, x: i64, y: i64, k: int)
    requires
        0 <= k < 8,
        hash_spec(seed, x, y) % 8 == k,
    ensures
        lattice_gradient_2d(seed, x as int, y as int) == gradients_2d()[k],
        is_unit_direction_2d(lattice_gradient_2d(seed, x as int, y as int)),
{
    lemma_gradients_2d_are_the_eight_directions();
}

/// Each lattice point takes the 3D gradient whose index is its hash under the
/// generator's full seed modulo the twelve table entries; every lattice gradient
/// is a cube edge midpoint.
pub proof fn lemma_lattice_gradient_3d_by_hash(seed: u64, x: i64, y: i64, z: i64, k: int)
    requires
        0 <= k < 12,
        hash3_spec(seed, x, y, z) % 12 == k,
    ensures
        lattice_gradient_3d(seed, x as int, y as int, z as int) == gradients_3d()[k],
        is_cube_edge_midpoint(lattice_gradient_3d(seed, x as int, y as int, z as int)),
{
    lemma_gradients_3d_are_the_cube_edge_midpoints();
}

} // verus!
