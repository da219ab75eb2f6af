//! The lattice side of Worley (cellular) noise: the feature point hashes of the
//! cells around a sample point, and the choice of the nearest two distances.

use vstd::prelude::*;
use crate::util::{lookup2, lookup3, shuffled, PermutationTable};

verus! {

/// Distance metric for Worley noise.
#[derive(Clone, Copy, Debug, PartialEq, Eq, Structural)]
pub enum DistanceMetric {
    /// Euclidean distance (L2 norm).
    Euclidean,
    /// Manhattan distance (L1 norm).
    Manhattan,
    /// Chebyshev distance (L-infinity norm).
    Chebyshev,
}

/// The cell at position `k` of the 3 x 3 neighbourhood of `(xi, yi)`, walked
/// with x outermost: `(xi + k / 3 - 1, yi + k % 3 - 1)`.
pub open spec fn neighbour_2d(xi: int, yi: int, k: int) -> (int, int) {
    (xi + k / 3 - 1, yi + k % 3 - 1)
}

/// The cell at position `k` of the 3 x 3 x 3 neighbourhood of `(xi, yi, zi)`,
/// walked with x outermost and z innermost.
pub open spec fn neighbour_3d(xi: int, yi: int, zi: int, k: int) -> (int, int, int) {
    (xi + k / 9 - 1, yi + (k / 3) % 3 - 1, zi + k % 3 - 1)
}

/// What the neighbourhood listing holds for cell `(cx, cy)`: the cell and the
/// two table hashes that place its feature point along x and along y.
pub open spec fn feature_cell_2d(s: Seq<u8>, cx: int, cy: int) -> (i32, i32, u8, u8) {
    (cx as i32, cy as i32, lookup2(s, cx, cy), lookup2(s, cx + 317, cy + 101))
}

/// What the neighbourhood listing holds for cell `(cx, cy, cz)`.
pub open spec fn feature_cell_3d(s: Seq<u8>, cx: int, cy: int, cz: int) -> (i32, i32, i32, u8, u8, u8) {
    (
        cx as i32,
        cy as i32,
        cz as i32,
        lookup3(s, cx, cy, cz),
        lookup3(s, cx + 317, cy + 101, cz + 57),
        lookup3(s, cx + 79, cy + 211, cz + 173),
    )
}

/// The values a nearest-two search ranges over: two copies of `farthest`
/// (the distance that stands for "no feature point yet"), then the distances.
pub open spec fn candidates(dists: Seq<u64>, farthest: u64) -> Seq<u64> {
    seq![farthest, farthest] + dists
}

/// `f1` and `f2` sit at two different positions of `c`, `f1 <= f2`, and every
/// other position holds at least `f2`: they are the two smallest values of `c`.
pub open spec fn are_two_smallest(c: Seq<u64>, f1: u64, f2: u64) -> bool {
    &&& f1 <= f2
    &&& exists|i: int, j: int|
        0 <= i < c.len() && 0 <= j < c.len() && i != j && #[trigger] c[i] == f1 && #[trigger] c[j] == f2
            && forall|k: int| 0 <= k < c.len() && k != i && k != j ==> f2 <= #[trigger] c[k]
}

/// Worley (cellular/Voronoi) noise generator.
pub struct WorleyNoise {
    perm: PermutationTable,
    metric: DistanceMetric,
}

impl View for WorleyNoise {
    type V = (Seq<u8>, DistanceMetric);

    /// A Worley generator is its permutation table and its metric.
    closed spec fn view(&self) -> (Seq<u8>, DistanceMetric) {
        (self.perm@, self.metric)
    }
}

impl WorleyNoise {
    /// Creates a generator with a seed and the Euclidean distance.
    pub fn new(seed: u64) -> (n: Self)
        ensures
            n@.0 == shuffled(seed),
            n@.1 == DistanceMetric::Euclidean,
    {
        WorleyNoise { perm: PermutationTable::new(seed), metric: DistanceMetric::Euclidean }
    }

    /// Replaces the distance metric, keeping the table.
    pub fn with_metric(self, metric: DistanceMetric) -> (n: Self)
        ensures
            n@.0 == self@.0,
            n@.1 == metric,
    {
        let mut s = self;
        s.metric = metric;
        s
    }

    /// The distance metric in use.
    pub fn metric(&self) -> (m: DistanceMetric)
        ensures
            m == self@.1,
    {
        self.metric
    }

    /// The nine cells around cell `(xi, yi)`, each with the hashes that place
    /// its feature point: entry `k` is the cell `neighbour_2d(xi, yi, k)`.
    pub fn feature_cells_2d(&self, xi: i32, yi: i32) -> (cells: Vec<(i32, i32, u8, u8)>)
        requires
            i32::MIN < xi,
            i32::MIN < yi,
            xi + 1 + 317 <= i32::MAX,
            yi + 1 + 101 <= i32::MAX,
        ensures
            cells.len() == 9,
            forall|k: int| 0 <= k < 9 ==> #[trigger] cells[k] == feature_cell_2d(
                self@.0,
                neighbour_2d(xi as int, yi as int, k).0,
                neighbour_2d(xi as int, yi as int, k).1,
            ),
            forall|k: int| 0 <= k < 9 ==> {
                &&& #[trigger] cells[k].0 == xi + k / 3 - 1
                &&& cells[k].1 == yi + k % 3 - 1
                &&& cells[k].2 == lookup2(self@.0, cells[k].0 as int, cells[k].1 as int)
                &&& cells[k].3 == lookup2(self@.0, cells[k].0 + 317, cells[k].1 + 101)
            },
    {
        let mut cells: Vec<(i32, i32, u8, u8)> = Vec::new();
        let mut dx: i32 = -1;
        while dx <= 1
            invariant
                -1 <= dx <= 2,
                i32::MIN < xi,
                i32::MIN < yi,
                xi + 1 + 317 <= i32::MAX,
                yi + 1 + 101 <= i32::MAX,
                cells.len() == 3 * (dx + 1),
                forall|k: int| 0 <= k < cells.len() ==> #[trigger] cells[k] == feature_cell_2d(
                    self@.0,
                    neighbour_2d(xi as int, yi as int, k).0,
                    neighbour_2d(xi as int, yi as int, k).1,
                ),
            decreases 2 - dx,
        {
            let mut dy: i32 = -1;
            while dy <= 1
                invariant
                    -1 <= dx <= 1,
                    -1 <= dy <= 2,
                    i32::MIN < xi,
                    i32::MIN < yi,
                    xi + 1 + 317 <= i32::MAX,
                    yi + 1 + 101 <= i32::MAX,
                    cells.len() == 3 * (dx + 1) + (dy + 1),
                    forall|k: int| 0 <= k < cells.len() ==> #[trigger] cells[k] == feature_cell_2d(
                        self@.0,
                        neighbour_2d(xi as int, yi as int, k).0,
                        neighbour_2d(xi as int, yi as int, k).1,
                    ),
                decreases 2 - dy,
            {
                let cx = xi + dx;
                let cy = yi + dy;
                let hx = self.perm.hash2(cx, cy);
                let hy = self.perm.hash2(cx + 317, cy + 101);
                let ghost k = cells.len() as int;
                assert(neighbour_2d(xi as int, yi as int, k) == (cx as int, cy as int));
                cells.push((cx, cy, hx, hy));
                dy = dy + 1;
            }
            dx = dx + 1;
        }
        cells
    }

    /// The twenty-seven cells around cell `(xi, yi, zi)`, each with the hashes
    /// that place its feature point: entry `k` is `neighbour_3d(xi, yi, zi, k)`.
    pub fn feature_cells_3d(&self, xi: i32, yi: i32, zi: i32) -> (cells: Vec<(i32, i32, i32, u8, u8, u8)>)
        requires
            i32::MIN < xi,
            i32::MIN < yi,
            i32::MIN < zi,
            xi + 1 + 317 <= i32::MAX,
            yi + 1 + 211 <= i32::MAX,
            zi + 1 + 173 <= i32::MAX,
        ensures
            cells.len() == 27,
            forall|k: int| 0 <= k < 27 ==> #[trigger] cells[k] == feature_cell_3d(
                self@.0,
                neighbour_3d(xi as int, yi as int, zi as int, k).0,
                neighbour_3d(xi as int, yi as int, zi as int, k).1,
                neighbour_3d(xi as int, yi as int, zi as int, k).2,
            ),
            forall|k: int| 0 <= k < 27 ==> {
                &&& #[trigger] cells[k].0 == xi + k / 9 - 1
                &&& cells[k].1 == yi + (k / 3) % 3 - 1
                &&& cells[k].2 == zi + k % 3 - 1
                &&& cells[k].3 == lookup3(self@.0, cells[k].0 as int, cells[k].1 as int, cells[k].2 as int)
                &&& cells[k].4 == lookup3(self@.0, cells[k].0 + 317, cells[k].1 + 101, cells[k].2 + 57)
                &&& cells[k].5 == lookup3(self@.0, cells[k].0 + 79, cells[k].1 + 211, cells[k].2 + 173)
            },
    {
        let mut cells: Vec<(i32, i32, i32, u8, u8, u8)> = Vec::new();
        let mut dx: i32 = -1;
        while dx <= 1
            invariant
                -1 <= dx <= 2,
                i32::MIN < xi,
                i32::MIN < yi,
                i32::MIN < zi,
                xi + 1 + 317 <= i32::MAX,
                yi + 1 + 211 <= i32::MAX,
                zi + 1 + 173 <= i32::MAX,
                cells.len() == 9 * (dx + 1),
                forall|k: int| 0 <= k < cells.len() ==> #[trigger] cells[k] == feature_cell_3d(
                    self@.0,
                    neighbour_3d(xi as int, yi as int, zi as int, k).0,
                    neighbour_3d(xi as int, yi as int, zi as int, k).1,
                    neighbour_3d(xi as int, yi as int, zi as int, k).2,
                ),
            decreases 2 - dx,
        {
            let mut dy: i32 = -1;
            while dy <= 1
                invariant
                    -1 <= dx <= 1,
                    -1 <= dy <= 2,
                    i32::MIN < xi,
                    i32::MIN < yi,
                    i32::MIN < zi,
                    xi + 1 + 317 <= i32::MAX,
                    yi + 1 + 211 <= i32::MAX,
                    zi + 1 + 173 <= i32::MAX,
                    cells.len() == 9 * (dx + 1) + 3 * (dy + 1),
                    forall|k: int| 0 <= k < cells.len() ==> #[trigger] cells[k] == feature_cell_3d(
                        self@.0,
                        neighbour_3d(xi as int, yi as int, zi as int, k).0,
                        neighbour_3d(xi as int, yi as int, zi as int, k).1,
                        neighbour_3d(xi as int, yi as int, zi as int, k).2,
                    ),
                decreases 2 - dy,
            {
                let mut dz: i32 = -1;
                while dz <= 1
                    invariant
                        -1 <= dx <= 1,
                        -1 <= dy <= 1,
                        -1 <= dz <= 2,
                        i32::MIN < xi,
                        i32::MIN < yi,
                        i32::MIN < zi,
                        xi + 1 + 317 <= i32::MAX,
                        yi + 1 + 211 <= i32::MAX,
                        zi + 1 + 173 <= i32::MAX,
                        cells.len() == 9 * (dx + 1) + 3 * (dy + 1) + (dz + 1),
                        forall|k: int| 0 <= k < cells.len() ==> #[trigger] cells[k] == feature_cell_3d(
                            self@.0,
                            neighbour_3d(xi as int, yi as int, zi as int, k).0,
                            neighbour_3d(xi as int, yi as int, zi as int, k).1,
                            neighbour_3d(xi as int, yi as int, zi as int, k).2,
                        ),
                    decreases 2 - dz,
                {
                    let cx = xi + dx;
                    let cy = yi + dy;
                    let cz = zi + dz;
                    let hx = self.perm.hash3(cx, cy, cz);
                    let hy = self.perm.hash3(cx + 317, cy + 101, cz + 57);
                    let hz = self.perm.hash3(cx + 79, cy + 211, cz + 173);
                    let ghost k = cells.len() as int;
                    assert(neighbour_3d(xi as int, yi as int, zi as int, k) == (cx as int, cy as int, cz as int));
                    cells.push((cx, cy, cz, hx, hy, hz));
                    dz = dz + 1;
                }
                dy = dy + 1;
            }
            dx = dx + 1;
        }
        cells
    }
}

/// The 2D neighbourhood listing holds exactly the 3 x 3 block of cells around
/// `(xi, yi)`: every entry is within one cell of it on each axis, no cell is
/// listed twice, and every cell of the block is listed.
pub proof fn lemma_neighbourhood_2d_is_block(xi: int, yi: int)
    ensures
        forall|k: int| 0 <= k < 9 ==> {
            &&& -1 <= #[trigger] neighbour_2d(xi, yi, k).0 - xi <= 1
            &&& -1 <= neighbour_2d(xi, yi, k).1 - yi <= 1
        },
        forall|k: int, l: int| 0 <= k < 9 && 0 <= l < 9 && k != l ==> #[trigger] neighbour_2d(xi, yi, k) != #[trigger] neighbour_2d(xi, yi, l),
        forall|cx: int, cy: int| -1 <= cx - xi <= 1 && -1 <= cy - yi <= 1 ==> #[trigger] neighbour_2d(
            xi,
            yi,
            3 * (cx - xi + 1) + (cy - yi + 1),
        ) == (cx, cy),
{
}

/// The 3D neighbourhood listing holds exactly the 3 x 3 x 3 block of cells
/// around `(xi, yi, zi)`: every entry is within one cell of it on each axis, no
/// cell is listed twice, and every cell of the block is listed.
pub proof fn lemma_neighbourhood_3d_is_block(xi: int, yi: int, zi: int)
    ensures
        forall|k: int| 0 <= k < 27 ==> {
            &&& -1 <= #[trigger] neighbour_3d(xi, yi, zi, k).0 - xi <= 1
            &&& -1 <= neighbour_3d(xi, yi, zi, k).1 - yi <= 1
            &&& -1 <= neighbour_3d(xi, yi, zi, k).2 - zi <= 1
        },
        forall|k: int, l: int| 0 <= k < 27 && 0 <= l < 27 && k != l ==> #[trigger] neighbour_3d(xi, yi, zi, k) != #[trigger] neighbour_3d(xi, yi, zi, l),
        forall|cx: int, cy: int, cz: int| -1 <= cx - xi <= 1 && -1 <= cy - yi <= 1 && -1 <= cz - zi <= 1 ==> #[trigger] neighbour_3d(
            xi,
            yi,
            zi,
            9 * (cx - xi + 1) + 3 * (cy - yi + 1) + (cz - zi + 1),
        ) == (cx, cy, cz),
{
}

/// Keeps the two smallest of the distances seen so far, the way the cellular
/// noise does while it walks the neighbouring cells: both start at `farthest`;
/// a distance below the nearest one pushes it down to second place, and one
/// below only the second replaces the second.
///
/// Distances are given as keys whose unsigned order is the order of the
/// distances (such as the bit patterns of non-negative floats).
pub fn two_nearest(dists: &Vec<u64>, farthest: u64) -> (r: (u64, u64))
    ensures
        are_two_smallest(candidates(dists@, farthest), r.0, r.1),
        forall|k: int| 0 <= k < candidates(dists@, farthest).len() ==> r.0 <= #[trigger] candidates(dists@, farthest)[k],
{
    let ghost c = candidates(dists@, farthest);
    let mut f1 = farthest;
    let mut f2 = farthest;
    let ghost mut p1: int = 0;
    let ghost mut p2: int = 1;
    let mut t: usize = 0;
    while t < dists.len()
        invariant
            c == candidates(dists@, farthest),
            t <= dists.len(),
            f1 <= f2,
            0 <= p1 < t + 2,
            0 <= p2 < t + 2,
            p1 != p2,
            c[p1] == f1,
            c[p2] == f2,
            forall|k: int| 0 <= k < t + 2 && k != p1 && k != p2 ==> f2 <= #[trigger] c[k],
        decreases dists.len() - t,
    {
        let d = dists[t];
        assert(c[t + 2] == d);
        if d < f1 {
            f2 = f1;
            f1 = d;
            proof {
                p2 = p1;
                p1 = t + 2;
            }
        } else if d < f2 {
            f2 = d;
            proof {
                p2 = t + 2;
            }
        }
        t = t + 1;
    }
    assert(forall|k: int| 0 <= k < c.len() ==> f1 <= #[trigger] c[k]);
    (f1, f2)
}

} // verus!
