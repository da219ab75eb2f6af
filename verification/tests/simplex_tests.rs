use noise_gen_rs::simplex::simplex_steps_3d;
use noise_gen_rs::util::{gradient_2d, gradient_3d, PermutationTable};
use noise_gen_rs::SimplexNoise;

#[test]
fn simplex_steps_3d_cases() {
    // x >= y >= z
    assert_eq!(simplex_steps_3d(true, true, true), ((1, 0, 0), (1, 1, 0)));
    // x >= z > y
    assert_eq!(simplex_steps_3d(true, false, true), ((1, 0, 0), (1, 0, 1)));
    // z > x >= y
    assert_eq!(simplex_steps_3d(true, false, false), ((0, 0, 1), (1, 0, 1)));
    // z > y > x
    assert_eq!(simplex_steps_3d(false, false, false), ((0, 0, 1), (0, 1, 1)));
    // y > x, y >= z
    // y > x >= z
    assert_eq!(simplex_steps_3d(false, true, true), ((0, 1, 0), (1, 1, 0)));
    // y >= z > x
    assert_eq!(simplex_steps_3d(false, true, false), ((0, 1, 0), (0, 1, 1)));
}

#[test]
fn simplex_steps_walk_edges() {
    for a in [false, true] {
        for b in [false, true] {
            for c in [false, true] {
                let (f, s) = simplex_steps_3d(a, b, c);
                assert_eq!(f.0 + f.1 + f.2, 1);
                assert_eq!(s.0 + s.1 + s.2, 2);
                assert!(f.0 <= s.0 && f.1 <= s.1 && f.2 <= s.2);
            }
        }
    }
}

#[test]
fn simplex_corner_gradient_indices_2d_follow_table() {
    let n = SimplexNoise::new(42);
    let t = PermutationTable::new(42);
    let g = n.corner_gradient_indices_2d(3, -4, true);
    assert_eq!(g[0], t.hash2(3, -4) as usize % 12);
    assert_eq!(g[1], t.hash2(4, -4) as usize % 12);
    assert_eq!(g[2], t.hash2(4, -3) as usize % 12);
    let h = n.corner_gradient_indices_2d(3, -4, false);
    assert_eq!(h[1], t.hash2(3, -3) as usize % 12);
    // hash2(3, 7) of seed 42 is 234, which is 6 modulo 12
    assert_eq!(n.corner_gradient_indices_2d(3, 7, true)[0], 6);
    assert_eq!(gradient_2d(6), (1, -1));
    assert!((0..50).all(|i| n.corner_gradient_indices_2d(i, -i, true).iter().all(|k| *k < 12)));
}

#[test]
fn simplex_corner_gradients_3d_follow_table() {
    let n = SimplexNoise::new(99);
    let t = PermutationTable::new(99);
    let (f, s) = simplex_steps_3d(true, false, true);
    let g = n.corner_gradients_3d(1, 2, 3, f, s);
    assert_eq!(g[0], gradient_3d(t.hash3(1, 2, 3) as usize % 12));
    assert_eq!(g[1], gradient_3d(t.hash3(2, 2, 3) as usize % 12));
    assert_eq!(g[2], gradient_3d(t.hash3(2, 2, 4) as usize % 12));
    assert_eq!(g[3], gradient_3d(t.hash3(2, 3, 4) as usize % 12));
}

#[test]
fn simplex_different_seeds_differ() {
    let a = SimplexNoise::new(42);
    let b = SimplexNoise::new(99);
    assert!((0..10).any(|i| a.corner_gradient_indices_2d(i, i, true) != b.corner_gradient_indices_2d(i, i, true)));
}

#[test]
fn simplex_first_step_follows_largest_offset() {
    let samples = [
        (0.3, 0.2, 0.1),
        (0.1, 0.3, 0.2),
        (0.2, 0.1, 0.3),
        (0.5, 0.5, 0.1),
        (0.0, 0.0, 0.0),
        (0.5, 0.9, 0.1),
    ];
    for (x, y, z) in samples {
        let (f, _) = simplex_steps_3d(x >= y, y >= z, x >= z);
        let picked: f64 = if f.0 == 1 { x } else if f.1 == 1 { y } else { z };
        assert!(picked >= x && picked >= y && picked >= z);
    }
}

#[test]
fn simplex_second_step_skips_smallest_offset() {
    let samples = [
        (0.3, 0.2, 0.1),
        (0.1, 0.3, 0.2),
        (0.2, 0.1, 0.3),
        (0.5, 0.9, 0.1),
        (0.9, 0.5, 0.1),
        (0.1, 0.5, 0.9),
    ];
    for (x, y, z) in samples {
        let (_, s) = simplex_steps_3d(x >= y, y >= z, x >= z);
        let left_out: f64 = if s.0 == 0 { x } else if s.1 == 0 { y } else { z };
        assert!(left_out <= x && left_out <= y && left_out <= z);
    }
    // z < x < y: along y, then x
    assert_eq!(simplex_steps_3d(0.5 >= 0.9, 0.9 >= 0.1, 0.5 >= 0.1), ((0, 1, 0), (1, 1, 0)));
}
