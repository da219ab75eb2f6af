use noise_gen_rs::util::{gradient_2d, gradient_3d, hash, hash3};
use noise_gen_rs::PerlinNoise;

#[test]
fn perlin_new_keeps_seed() {
    let n = PerlinNoise::new(42);
    assert_eq!(n.seed(), 42);
    assert_eq!(n.clone().seed(), 42);
}

#[test]
fn perlin_corner_gradients_2d_follow_hash() {
    let n = PerlinNoise::new(42);
    let g = n.corner_gradients_2d(3, 7);
    assert_eq!(g[0], gradient_2d(hash(42, 3, 7) % 8));
    assert_eq!(g[1], gradient_2d(hash(42, 4, 7) % 8));
    assert_eq!(g[2], gradient_2d(hash(42, 3, 8) % 8));
    assert_eq!(g[3], gradient_2d(hash(42, 4, 8) % 8));
    // hash(42, 3, 7) = 171801765137361, which is 1 modulo 8
    assert_eq!(g[0], (-1, 0));
}

#[test]
fn perlin_neighbour_cells_share_corners_2d() {
    let n = PerlinNoise::new(1234);
    for xi in -5..5 {
        for yi in -5..5 {
            let here = n.corner_gradients_2d(xi, yi);
            let right = n.corner_gradients_2d(xi + 1, yi);
            let up = n.corner_gradients_2d(xi, yi + 1);
            assert_eq!(here[1], right[0]);
            assert_eq!(here[3], right[2]);
            assert_eq!(here[2], up[0]);
            assert_eq!(here[3], up[1]);
        }
    }
}

#[test]
fn perlin_corner_gradients_3d_follow_hash() {
    let n = PerlinNoise::new(42);
    let g = n.corner_gradients_3d(-2, 5, 9);
    for c in 0..8i64 {
        let expected = gradient_3d(hash3(42, -2 + c % 2, 5 + (c / 2) % 2, 9 + c / 4) % 12);
        assert_eq!(g[c as usize], expected);
    }
    let up = n.corner_gradients_3d(-2, 5, 10);
    for c in 0..4 {
        assert_eq!(g[c + 4], up[c]);
    }
}

#[test]
fn perlin_different_seeds_differ() {
    let a = PerlinNoise::new(1);
    let b = PerlinNoise::new(2);
    assert!((0..10).any(|i| a.corner_gradients_2d(i, i) != b.corner_gradients_2d(i, i)));
}
