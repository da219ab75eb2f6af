use noise_gen_rs::util::{gradient_2d, gradient_3d, hash, hash3, scramble, PermutationTable};

#[test]
fn test_fade_derivatives_zero_at_boundaries() {
    // Derivative of fade: 30t^4 - 60t^3 + 30t^2
    let d = |t: f64| 30.0 * t * t * t * t - 60.0 * t * t * t + 30.0 * t * t;
    assert!(d(0.0).abs() < 1e-10);
    assert!(d(1.0).abs() < 1e-10);
}

#[test]
fn test_hash_deterministic() {
    let h1 = hash(42, 3, 7);
    let h2 = hash(42, 3, 7);
    assert_eq!(h1, h2);
}

#[test]
fn test_hash_different_inputs() {
    let h1 = hash(42, 0, 0);
    let h2 = hash(42, 1, 0);
    assert_ne!(h1, h2);
}

#[test]
fn test_hash3_deterministic() {
    let h1 = hash3(42, 1, 2, 3);
    let h2 = hash3(42, 1, 2, 3);
    assert_eq!(h1, h2);
}

#[test]
fn hash_exact_values() {
    assert_eq!(hash(42, 3, 7), 171801765137361);
    assert_eq!(hash(42, 0, 0), 132825281933883);
    assert_eq!(hash(42, 1, 0), 145817442956345);
    // negative coordinates enter modulo 2^64
    assert_eq!(hash(42, -5, -9), 67864476646597);
}

#[test]
fn hash3_exact_values() {
    assert_eq!(hash3(42, 1, 2, 3), 87973843407803);
    assert_eq!(hash3(7, -1, -2, -3), 280305724692724);
}

#[test]
fn hash_drops_low_bits() {
    // the result is a 64-bit word shifted right by 16
    for x in -20..20 {
        assert!(hash(9, x, 2 * x) < (1usize << 48));
        assert!(hash3(9, x, 2 * x, -x) < (1usize << 48));
    }
}

#[test]
fn scramble_exact_values() {
    assert_eq!(scramble(42, 0), 9297814886316923340);
    assert_eq!(scramble(123, 456), 14768608150811560069);
    // seed + index wraps around 2^64
    assert_eq!(scramble(u64::MAX, 5), 5156626420896634997);
}

#[test]
fn permutation_table_holds_every_byte_once() {
    for seed in [0u64, 1, 42, 99, u64::MAX] {
        let t = PermutationTable::new(seed);
        let mut seen = [false; 256];
        for i in 0..256 {
            let b = t.value(i) as usize;
            assert!(!seen[b]);
            seen[b] = true;
        }
        assert!(seen.iter().all(|s| *s));
    }
}

#[test]
fn permutation_table_exact_prefix() {
    let t = PermutationTable::new(42);
    let first: Vec<u8> = (0..8).map(|i| t.value(i)).collect();
    assert_eq!(first, vec![215, 49, 52, 122, 141, 79, 202, 20]);
}

#[test]
fn permutation_table_deterministic() {
    let a = PermutationTable::new(7);
    let b = PermutationTable::new(7);
    for i in 0..256 {
        assert_eq!(a.value(i), b.value(i));
    }
    let c = PermutationTable::new(8);
    assert!((0..256).any(|i| a.value(i) != c.value(i)));
}

#[test]
fn permutation_hash_exact_values() {
    let t = PermutationTable::new(42);
    assert_eq!(t.hash2(3, 7), 234);
    assert_eq!(t.hash2(-1, -300), 92);
    assert_eq!(t.hash3(1, 2, 3), 14);
    assert_eq!(t.hash3(-7, 8, -9), 173);
}

#[test]
fn permutation_hash_chains_lookups() {
    let t = PermutationTable::new(5);
    for x in -300i32..300 {
        let y = 3 * x + 1;
        let first = t.value(x.rem_euclid(256) as usize) as i32;
        let expected = t.value((first + y).rem_euclid(256) as usize);
        assert_eq!(t.hash2(x, y), expected);
        let z = -x;
        let third = t.value((expected as i32 + z).rem_euclid(256) as usize);
        assert_eq!(t.hash3(x, y, z), third);
    }
}

#[test]
fn permutation_hash_has_period_256() {
    let t = PermutationTable::new(11);
    for x in -50..50 {
        for y in [-1000, -3, 0, 17, 999] {
            assert_eq!(t.hash2(x + 256, y), t.hash2(x, y));
            assert_eq!(t.hash2(x, y - 512), t.hash2(x, y));
            assert_eq!(t.hash3(x - 256, y + 256, 4 + 768), t.hash3(x, y, 4));
        }
    }
}

#[test]
fn gradient_tables() {
    assert_eq!(gradient_2d(0), (1, 0));
    assert_eq!(gradient_2d(3), (0, -1));
    assert_eq!(gradient_2d(7), (-1, -1));
    assert_eq!(gradient_3d(0), (1, 1, 0));
    assert_eq!(gradient_3d(6), (1, 0, -1));
    assert_eq!(gradient_3d(11), (0, -1, -1));
    for i in 0..12 {
        let (a, b, c) = gradient_3d(i);
        let zeros = [a, b, c].iter().filter(|v| **v == 0).count();
        assert_eq!(zeros, 1);
    }
}
