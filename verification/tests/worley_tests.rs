use noise_gen_rs::util::PermutationTable;
use noise_gen_rs::worley::{two_nearest, DistanceMetric};
use noise_gen_rs::WorleyNoise;

#[test]
fn worley_metric_defaults_and_changes() {
    let n = WorleyNoise::new(42);
    assert_eq!(n.metric(), DistanceMetric::Euclidean);
    let m = n.with_metric(DistanceMetric::Manhattan);
    assert_eq!(m.metric(), DistanceMetric::Manhattan);
    let c = WorleyNoise::new(42).with_metric(DistanceMetric::Chebyshev);
    assert_eq!(c.metric(), DistanceMetric::Chebyshev);
    // the table is kept: the feature cells do not depend on the metric
    assert_eq!(c.feature_cells_2d(1, 2), WorleyNoise::new(42).feature_cells_2d(1, 2));
}

#[test]
fn worley_feature_cells_2d_layout() {
    let n = WorleyNoise::new(42);
    let t = PermutationTable::new(42);
    let cells = n.feature_cells_2d(1, 2);
    assert_eq!(cells.len(), 9);
    let mut k = 0;
    for dx in -1..=1 {
        for dy in -1..=1 {
            let (cx, cy) = (1 + dx, 2 + dy);
            assert_eq!(cells[k], (cx, cy, t.hash2(cx, cy), t.hash2(cx + 317, cy + 101)));
            k += 1;
        }
    }
}

#[test]
fn worley_feature_cells_3d_layout() {
    let n = WorleyNoise::new(7);
    let t = PermutationTable::new(7);
    let cells = n.feature_cells_3d(-4, 0, 9);
    assert_eq!(cells.len(), 27);
    let mut k = 0;
    for dx in -1..=1 {
        for dy in -1..=1 {
            for dz in -1..=1 {
                let (cx, cy, cz) = (-4 + dx, dy, 9 + dz);
                assert_eq!(
                    cells[k],
                    (
                        cx,
                        cy,
                        cz,
                        t.hash3(cx, cy, cz),
                        t.hash3(cx + 317, cy + 101, cz + 57),
                        t.hash3(cx + 79, cy + 211, cz + 173)
                    )
                );
                k += 1;
            }
        }
    }
}

#[test]
fn two_nearest_exact() {
    assert_eq!(two_nearest(&vec![5, 3, 9, 3], 100), (3, 3));
    assert_eq!(two_nearest(&vec![9, 4, 7], 100), (4, 7));
    assert_eq!(two_nearest(&vec![7], 100), (7, 100));
    assert_eq!(two_nearest(&vec![], 100), (100, 100));
    assert_eq!(two_nearest(&vec![200, 150], 100), (100, 100));
}

#[test]
fn two_nearest_orders_float_bits() {
    let dists = [0.75f64, 0.25, 1.5, 0.5];
    let keys: Vec<u64> = dists.iter().map(|d| d.to_bits()).collect();
    let (f1, f2) = two_nearest(&keys, f64::MAX.to_bits());
    assert_eq!(f64::from_bits(f1), 0.25);
    assert_eq!(f64::from_bits(f2), 0.5);
    assert!(f1 <= f2);
}

#[test]
fn worley_different_seeds_differ() {
    let a = WorleyNoise::new(42).feature_cells_2d(1, 2);
    let b = WorleyNoise::new(99).feature_cells_2d(1, 2);
    assert_ne!(a, b);
}
