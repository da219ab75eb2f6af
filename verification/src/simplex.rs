//! The lattice side of simplex noise: which simplex of the skewed grid holds a
//! sample point, and which gradient direction sits at each of its corners.

use vstd::prelude::*;
use crate::util::{gradient_3d, gradients_3d, lookup2, lookup3, shuffled, PermutationTable};

verus! {

/// The gradient index (a table byte modulo 12) at skewed lattice point `(i, j)`
/// for the permutation table `s`. Only indices below 8 name a 2D gradient.
pub open spec fn simplex_gradient_index_2d(s: Seq<u8>, i: int, j: int) -> usize {
    (lookup2(s, i, j) % 12) as usize
}

/// The gradient at skewed lattice point `(i, j, k)` for the permutation table `s`.
pub open spec fn simplex_gradient_3d(s: Seq<u8>, i: int, j: int, k: int) -> (i8, i8, i8) {
    gradients_3d()[(lookup3(s, i, j, k) % 12) as int]
}

/// 1 when `b` holds, else 0.
pub open spec fn unit(b: bool) -> i32 {
    if b { 1 } else { 0 }
}

/// The first step through the 3D simplex, from the comparisons of the offsets
/// inside the skewed cell: along x when x is at least one of y and z and at
/// least y, along y when y exceeds x and is at least z, otherwise along z.
pub open spec fn first_step_3d(x_ge_y: bool, y_ge_z: bool, x_ge_z: bool) -> (i32, i32, i32) {
    (unit(x_ge_y && (y_ge_z || x_ge_z)), unit(!x_ge_y && y_ge_z), unit(!y_ge_z && (!x_ge_y || !x_ge_z)))
}

/// The second step through the 3D simplex: every axis but the one whose offset
/// ranks last (x is left out when it is below both y and z, y when it is below x
/// and below z, otherwise z).
pub open spec fn second_step_3d(x_ge_y: bool, y_ge_z: bool, x_ge_z: bool) -> (i32, i32, i32) {
    (unit(x_ge_y || (y_ge_z && x_ge_z)), unit(!x_ge_y || y_ge_z), unit(!(y_ge_z && (x_ge_y || x_ge_z))))
}

/// Simplex noise generator with a configurable seed.
pub struct SimplexNoise {
    perm: PermutationTable,
}

impl View for SimplexNoise {
    type V = Seq<u8>;

    /// A simplex generator is determined by its permutation table.
    closed spec fn view(&self) -> Seq<u8> {
        self.perm@
    }
}

impl SimplexNoise {
    /// Creates a generator seeded with `seed`; its table is the shuffle of the
    /// seed, so the same seed always yields identical output.
    pub fn new(seed: u64) -> (n: Self)
        ensures
            n@ == shuffled(seed),
    {
        SimplexNoise { perm: PermutationTable::new(seed) }
    }

    /// The gradient indices at the three corners of the 2D simplex whose lowest
    /// corner is `(i, j)`: that corner, then one step along x when `x_gt_y` (the
    /// offset along x exceeds the offset along y) or along y otherwise, then
    /// `(i + 1, j + 1)`. Each index is the corner's table byte modulo 12.
    pub fn corner_gradient_indices_2d(&self, i: i32, j: i32, x_gt_y: bool) -> (g: [usize; 3])
        requires
            i < i32::MAX,
            j < i32::MAX,
        ensures
            g[0] == simplex_gradient_index_2d(self@, i as int, j as int),
            g[1] == simplex_gradient_index_2d(self@, i + unit(x_gt_y), j + unit(!x_gt_y)),
            g[2] == simplex_gradient_index_2d(self@, i + 1, j + 1),
            g[0] as int == lookup2(self@, i as int, j as int) % 12,
            g[1] as int == lookup2(self@, i + unit(x_gt_y), j + unit(!x_gt_y)) % 12,
            g[2] as int == lookup2(self@, i + 1, j + 1) % 12,
            g[0] < 12 && g[1] < 12 && g[2] < 12,
    {
        let (i1, j1): (i32, i32) = if x_gt_y { (1, 0) } else { (0, 1) };
        let g0 = self.perm.hash2(i, j) as usize % 12;
        let g1 = self.perm.hash2(i + i1, j + j1) as usize % 12;
        let g2 = self.perm.hash2(i + 1, j + 1) as usize % 12;
        [g0, g1, g2]
    }

    /// The gradients at the four corners of the 3D simplex whose lowest corner
    /// is `(i, j, k)`, reached by taking `first`, then `second`, then `(1, 1, 1)`.
    pub fn corner_gradients_3d(
        &self,
        i: i32,
        j: i32,
        k: i32,
        first: (i32, i32, i32),
        second: (i32, i32, i32),
    ) -> (g: [(i8, i8, i8); 4])
        requires
            i < i32::MAX,
            j < i32::MAX,
            k < i32::MAX,
            0 <= first.0 <= 1,
            0 <= first.1 <= 1,
            0 <= first.2 <= 1,
            0 <= second.0 <= 1,
            0 <= second.1 <= 1,
            0 <= second.2 <= 1,
        ensures
            g[0] == simplex_gradient_3d(self@, i as int, j as int, k as int),
            g[1] == simplex_gradient_3d(self@, i + first.0, j + first.1, k + first.2),
            g[2] == simplex_gradient_3d(self@, i + second.0, j + second.1, k + second.2),
            g[3] == simplex_gradient_3d(self@, i + 1, j + 1, k + 1),
            g[0] == gradients_3d()[(lookup3(self@, i as int, j as int, k as int) % 12) as int],
            g[1] == gradients_3d()[(lookup3(self@, i + first.0, j + first.1, k + first.2) % 12) as int],
            g[2] == gradients_3d()[(lookup3(self@, i + second.0, j + second.1, k + second.2) % 12) as int],
            g[3] == gradients_3d()[(lookup3(self@, i + 1, j + 1, k + 1) % 12) as int],
    {
        let p = &self.perm;
        let g0 = gradient_3d(p.hash3(i, j, k) as usize % 12);
        let g1 = gradient_3d(p.hash3(i + first.0, j + first.1, k + first.2) as usize % 12);
        let g2 = gradient_3d(p.hash3(i + second.0, j + second.1, k + second.2) as usize % 12);
        let g3 = gradient_3d(p.hash3(i + 1, j + 1, k + 1) as usize % 12);
        [g0, g1, g2, g3]
    }
}

/// Chooses the path through the 3D simplex that holds a sample point, from the
/// three comparisons `x0 >= y0`, `y0 >= z0` and `x0 >= z0` of its offsets inside
/// the skewed cell. Returns the first and the second step.
pub fn simplex_steps_3d(x_ge_y: bool, y_ge_z: bool, x_ge_z: bool) -> (steps: ((i32, i32, i32), (i32, i32, i32)))
    ensures
        steps.0 == first_step_3d(x_ge_y, y_ge_z, x_ge_z),
        steps.1 == second_step_3d(x_ge_y, y_ge_z, x_ge_z),
{
    if x_ge_y {
        if y_ge_z {
            ((1, 0, 0), (1, 1, 0))
        } else if x_ge_z {
            ((1, 0, 0), (1, 0, 1))
        } else {
            ((0, 0, 1), (1, 0, 1))
        }
    } else if !y_ge_z {
        ((0, 0, 1), (0, 1, 1))
    } else if !x_ge_z {
        ((0, 1, 0), (0, 1, 1))
    } else {
        ((0, 1, 0), (1, 1, 0))
    }
}

/// Whatever the comparisons say, the path is a walk up the cube's edges:
/// the first step moves along exactly one axis, the second along exactly two,
/// and the second extends the first.
pub proof fn lemma_steps_walk_cube_edges(x_ge_y: bool, y_ge_z: bool, x_ge_z: bool)
    ensures
        ({
            let f = first_step_3d(x_ge_y, y_ge_z, x_ge_z);
            let s = second_step_3d(x_ge_y, y_ge_z, x_ge_z);
            &&& f.0 + f.1 + f.2 == 1
            &&& s.0 + s.1 + s.2 == 2
            &&& f.0 <= s.0 && f.1 <= s.1 && f.2 <= s.2
        }),
{
}

/// When the comparisons come from actual offsets `x`, `y`, `z`, the first
/// step follows a largest offset.
pub proof fn lemma_first_step_follows_largest(x: int, y: int, z: int)
    ensures
        ({
            let f = first_step_3d(x >= y, y >= z, x >= z);
            &&& f.0 == 1 ==> x >= y && x >= z
            &&& f.1 == 1 ==> y >= x && y >= z
            &&& f.2 == 1 ==> z >= x && z >= y
        }),
{
}

/// When the comparisons come from actual offsets, the second step leaves out a
/// smallest offset, so the chosen simplex is the one that contains the point.
pub proof fn lemma_second_step_skips_smallest(x: int, y: int, z: int)
    ensures
        ({
            let s = second_step_3d(x >= y, y >= z, x >= z);
            &&& s.0 == 0 ==> x <= y && x <= z
            &&& s.1 == 0 ==> y <= x && y <= z
            &&& s.2 == 0 ==> z <= x && z <= y
        }),
{
}

} // verus!
