//! Integer building blocks shared by the noise generators: lattice hashing,
//! the seeded bit scrambler, the gradient direction tables and the seeded
//! permutation table.

use vstd::prelude::*;
use vstd::arithmetic::div_mod::*;

verus! {

/// The modulus of 64-bit wrapping arithmetic.
pub open spec fn word() -> int {
    0x1_0000_0000_0000_0000
}

/// Multiplier applied to the seed before the first coordinate is mixed in.
pub const SEED_FACTOR: u64 = 374761393;
/// Multiplier applied after the x coordinate is mixed in.
pub const X_FACTOR: u64 = 668265263;
/// Multiplier applied after the y coordinate is mixed in.
pub const Y_FACTOR: u64 = 1274126177;
/// Multiplier applied after the z coordinate is mixed in (3D hashing only).
pub const Z_FACTOR: u64 = 1911520717;

/// The 64-bit word of the 2D lattice hash: the polynomial
/// `((seed * SEED_FACTOR + x) * X_FACTOR + y) * Y_FACTOR` reduced modulo 2^64,
/// where the signed coordinates enter with their mathematical value.
pub open spec fn hash_word(seed: u64, x: i64, y: i64) -> int {
    (((seed * SEED_FACTOR + x) * X_FACTOR + y) * Y_FACTOR) % word()
}

/// The 64-bit word of the 3D lattice hash, extending [`hash_word`] by one more
/// coordinate step.
pub open spec fn hash3_word(seed: u64, x: i64, y: i64, z: i64) -> int {
    ((((seed * SEED_FACTOR + x) * X_FACTOR + y) * Y_FACTOR + z) * Z_FACTOR) % word()
}

/// What `hash` returns: the word with its low 16 bits dropped, as a `usize`.
pub open spec fn hash_spec(seed: u64, x: i64, y: i64) -> usize {
    (hash_word(seed, x, y) / 0x10000) as usize
}

/// What `hash3` returns.
pub open spec fn hash3_spec(seed: u64, x: i64, y: i64, z: i64) -> usize {
    (hash3_word(seed, x, y, z) / 0x10000) as usize
}

proof fn lemma_i64_as_u64(x: i64)
    ensures
        (x as u64) as int == (x as int) % word(),
{
    if x < 0 {
        assert((x as u64) == x + 0x1_0000_0000_0000_0000) by (bit_vector)
            requires
                x < 0,
        ;
    }
}

proof fn lemma_wrapping_mul_step(h: u64, k: u64, acc: int)
    requires
        h as int == acc % word(),
    ensures
        h.wrapping_mul(k) as int == (acc * k) % word(),
{
    lemma_mul_mod_noop_left(acc, k as int, word());
}

proof fn lemma_wrapping_add_step(h: u64, v: i64, acc: int)
    requires
        h as int == acc % word(),
    ensures
        h.wrapping_add(v as u64) as int == (acc + v) % word(),
{
    let w = v as u64;
    let s: int = h as int + w as int;
    lemma_i64_as_u64(v);
    lemma_add_mod_noop(acc, v as int, word());
    if s < word() {
        lemma_small_mod(s as nat, word() as nat);
    } else {
        lemma_small_mod((s - word()) as nat, word() as nat);
        lemma_mod_sub_multiples_vanish(s, word());
    }
}

proof fn lemma_drop_low_bits(h: u64)
    ensures
        (h >> 16) as int == (h as int) / 0x10000,
        (h >> 16) < 0x1_0000_0000_0000,
{
    assert(h >> 16 == h / 0x10000) by (bit_vector);
    assert(h >> 16 < 0x1_0000_0000_0000) by (bit_vector);
}

/// Hashes a seed and a 2D lattice point to a pseudo-random index.
///
/// The value is the 64-bit wrapping product chain of [`hash_word`] shifted right
/// by 16 bits; equal arguments always give equal results.
pub fn hash(seed: u64, x: i64, y: i64) -> (r: usize)
    ensures
        r == hash_spec(seed, x, y),
        r < 0x1_0000_0000_0000,
{
    let h1 = seed.wrapping_mul(SEED_FACTOR);
    let h2 = h1.wrapping_add(x as u64);
    let h3 = h2.wrapping_mul(X_FACTOR);
    let h4 = h3.wrapping_add(y as u64);
    let h = h4.wrapping_mul(Y_FACTOR);
    proof {
        lemma_small_mod(seed as nat, word() as nat);
        lemma_wrapping_mul_step(seed, SEED_FACTOR, seed as int);
        lemma_wrapping_add_step(h1, x, seed * SEED_FACTOR);
        lemma_wrapping_mul_step(h2, X_FACTOR, seed * SEED_FACTOR + x);
        lemma_wrapping_add_step(h3, y, (seed * SEED_FACTOR + x) * X_FACTOR);
        lemma_wrapping_mul_step(h4, Y_FACTOR, (seed * SEED_FACTOR + x) * X_FACTOR + y);
        lemma_drop_low_bits(h);
    }
    (h >> 16) as usize
}

/// Hashes a seed and a 3D lattice point to a pseudo-random index.
pub fn hash3(seed: u64, x: i64, y: i64, z: i64) -> (r: usize)
    ensures
        r == hash3_spec(seed, x, y, z),
        r < 0x1_0000_0000_0000,
{
    let h1 = seed.wrapping_mul(SEED_FACTOR);
    let h2 = h1.wrapping_add(x as u64);
    let h3 = h2.wrapping_mul(X_FACTOR);
    let h4 = h3.wrapping_add(y as u64);
    let h5 = h4.wrapping_mul(Y_FACTOR);
    let h6 = h5.wrapping_add(z as u64);
    let h = h6.wrapping_mul(Z_FACTOR);
    proof {
        let a1 = seed * SEED_FACTOR;
        let a2 = (a1 + x) * X_FACTOR;
        let a3 = (a2 + y) * Y_FACTOR;
        lemma_small_mod(seed as nat, word() as nat);
        lemma_wrapping_mul_step(seed, SEED_FACTOR, seed as int);
        lemma_wrapping_add_step(h1, x, a1);
        lemma_wrapping_mul_step(h2, X_FACTOR, a1 + x);
        lemma_wrapping_add_step(h3, y, a2);
        lemma_wrapping_mul_step(h4, Y_FACTOR, a2 + y);
        lemma_wrapping_add_step(h5, z, a3);
        lemma_wrapping_mul_step(h6, Z_FACTOR, a3 + z);
        lemma_drop_low_bits(h);
    }
    (h >> 16) as usize
}

/// First multiplier of the bit scrambler.
pub const SCRAMBLE_FACTOR_1: u64 = 0xff51afd7ed558ccd;
/// Second multiplier of the bit scrambler.
pub const SCRAMBLE_FACTOR_2: u64 = 0xc4ceb9fe1a85ec53;

/// Folds the high 31 bits of a word onto its low bits.
pub open spec fn fold_high(h: u64) -> u64 {
    h ^ (h >> 33u64)
}

/// The word that `scramble` returns: the sum `seed + index` modulo 2^64,
/// passed through three fold steps separated by two multiplications modulo 2^64.
pub open spec fn scramble_spec(seed: u64, index: usize) -> u64 {
    let a = fold_high(((seed + index) % word()) as u64);
    let b = fold_high(((a * SCRAMBLE_FACTOR_1) % word()) as u64);
    fold_high(((b * SCRAMBLE_FACTOR_2) % word()) as u64)
}

/// Seeded bit scrambler: a deterministic, well-mixed 64-bit word for each
/// `(seed, index)` pair. It is the integer core of the seeded random sequence.
pub fn scramble(seed: u64, index: usize) -> (r: u64)
    ensures
        r == scramble_spec(seed, index),
{
    let mut h = seed.wrapping_add(index as u64);
    proof {
        if seed + index < word() {
            lemma_small_mod((seed + index) as nat, word() as nat);
        } else {
            lemma_small_mod((seed + index - word()) as nat, word() as nat);
            lemma_mod_sub_multiples_vanish(seed + index, word());
        }
    }
    h = h ^ (h >> 33u64);
    h = h.wrapping_mul(SCRAMBLE_FACTOR_1);
    h = h ^ (h >> 33u64);
    h = h.wrapping_mul(SCRAMBLE_FACTOR_2);
    h = h ^ (h >> 33u64);
    h
}

/// Number of entries in a permutation table.
pub const TABLE_SIZE: usize = 256;

/// The identity arrangement of the 256 byte values.
pub open spec fn identity_table() -> Seq<u8> {
    Seq::new(256, |k: int| k as u8)
}

/// Exchanges the entries at positions `i` and `j`.
pub open spec fn swap_entries(s: Seq<u8>, i: int, j: int) -> Seq<u8> {
    s.update(i, s[j]).update(j, s[i])
}

/// The partner that position `i` is exchanged with during the shuffle.
pub open spec fn swap_partner(seed: u64, i: int) -> int {
    (scramble_spec(seed, i as usize) as int) % (i + 1)
}

/// The table after the shuffle has visited positions 255 down to `i`
/// (nothing visited when `i >= 256`).
pub open spec fn shuffle_from(seed: u64, i: int) -> Seq<u8>
    decreases 256 - i,
{
    if i >= 256 {
        identity_table()
    } else {
        swap_entries(shuffle_from(seed, i + 1), i, swap_partner(seed, i))
    }
}

/// The arrangement a table seeded with `seed` holds: a Fisher-Yates shuffle of
/// the identity, visiting positions 255 down to 1.
pub open spec fn shuffled(seed: u64) -> Seq<u8> {
    shuffle_from(seed, 1)
}

/// `s` holds each of the 256 byte values exactly once.
pub open spec fn is_byte_permutation(s: Seq<u8>) -> bool {
    &&& s.len() == 256
    &&& forall|i: int, j: int| 0 <= i < 256 && 0 <= j < 256 && i != j ==> s[i] != s[j]
    &&& forall|b: u8| #[trigger] s.contains(b)
}

proof fn lemma_swap_keeps_permutation(s: Seq<u8>, i: int, j: int)
    requires
        is_byte_permutation(s),
        0 <= i < 256,
        0 <= j < 256,
    ensures
        is_byte_permutation(swap_entries(s, i, j)),
{
    let t = swap_entries(s, i, j);
    assert forall|b: u8| #[trigger] t.contains(b) by {
        assert(s.contains(b));
        let k = choose|k: int| 0 <= k < s.len() && s[k] == b;
        if k == i {
            assert(t[j] == b);
        } else if k == j {
            assert(t[i] == b);
        } else {
            assert(t[k] == b);
        }
    }
}

/// Every seed yields a table that holds each byte value exactly once.
pub proof fn lemma_shuffled_is_permutation(seed: u64)
    ensures
        is_byte_permutation(shuffled(seed)),
{
    lemma_shuffle_from_is_permutation(seed, 1);
}

proof fn lemma_shuffle_from_is_permutation(seed: u64, i: int)
    requires
        1 <= i,
    ensures
        is_byte_permutation(shuffle_from(seed, i)),
    decreases 256 - i,
{
    if i >= 256 {
        let s = identity_table();
        assert forall|b: u8| #[trigger] s.contains(b) by {
            assert(s[b as int] == b);
        }
    } else {
        lemma_shuffle_from_is_permutation(seed, i + 1);
        lemma_mod_bound(scramble_spec(seed, i as usize) as int, i + 1);
        lemma_swap_keeps_permutation(shuffle_from(seed, i + 1), i, swap_partner(seed, i));
    }
}

/// The table entry reached from lattice column `x` and row `y`: the column's
/// entry plus `y` selects a second entry, both positions taken modulo 256.
pub open spec fn lookup2(s: Seq<u8>, x: int, y: int) -> u8 {
    s[(s[x % 256] + y) % 256]
}

/// The table entry reached from a 3D lattice point, chaining one more lookup.
pub open spec fn lookup3(s: Seq<u8>, x: int, y: int, z: int) -> u8 {
    s[(lookup2(s, x, y) + z) % 256]
}

/// Lattice hashing through a table repeats every 256 cells along each
/// axis, so noise built on it tiles with that period.
pub proof fn lemma_lookup_period(s: Seq<u8>, x: int, y: int, z: int, a: int, b: int, c: int)
    ensures
        lookup2(s, x + 256 * a, y + 256 * b) == lookup2(s, x, y),
        lookup3(s, x + 256 * a, y + 256 * b, z + 256 * c) == lookup3(s, x, y, z),
{
    lemma_mod_multiples_vanish(a, x, 256);
    lemma_mod_multiples_vanish(b, s[x % 256] + y, 256);
    lemma_mod_multiples_vanish(c, lookup2(s, x, y) + z, 256);
}

proof fn lemma_shift_separates(p: int, a: int, b: int)
    requires
        (p + a) % 256 == (p + b) % 256,
    ensures
        a % 256 == b % 256,
{
    lemma_mod_equivalence(p + a, p + b, 256);
    assert((p + a) - (p + b) == a - b);
    lemma_mod_equivalence(a, b, 256);
}

/// Through a permutation table, distinct rows (modulo 256) of one column hash
/// to distinct bytes, and so do distinct columns of one row; in 3D, distinct
/// layers of one lattice line hash to distinct bytes.
pub proof fn lemma_lookup_separates(s: Seq<u8>, x: int, y: int, z: int, x2: int, y2: int, z2: int)
    requires
        is_byte_permutation(s),
    ensures
        y % 256 != y2 % 256 ==> lookup2(s, x, y) != lookup2(s, x, y2),
        x % 256 != x2 % 256 ==> lookup2(s, x, y) != lookup2(s, x2, y),
        z % 256 != z2 % 256 ==> lookup3(s, x, y, z) != lookup3(s, x, y, z2),
{
    lemma_mod_bound(x, 256);
    lemma_mod_bound(x2, 256);
    let p = s[x % 256] as int;
    let p2 = s[x2 % 256] as int;
    lemma_mod_bound(p + y, 256);
    lemma_mod_bound(p + y2, 256);
    lemma_mod_bound(p2 + y, 256);
    if y % 256 != y2 % 256 && lookup2(s, x, y) == lookup2(s, x, y2) {
        lemma_shift_separates(p, y, y2);
    }
    if x % 256 != x2 % 256 && lookup2(s, x, y) == lookup2(s, x2, y) {
        assert(p != p2);
        lemma_shift_separates(y, p, p2);
        lemma_small_mod(p as nat, 256);
        lemma_small_mod(p2 as nat, 256);
    }
    let q = lookup2(s, x, y) as int;
    lemma_mod_bound(q + z, 256);
    lemma_mod_bound(q + z2, 256);
    if z % 256 != z2 % 256 && lookup3(s, x, y, z) == lookup3(s, x, y, z2) {
        lemma_shift_separates(q, z, z2);
    }
}

/// One lattice step along y adds `Y_FACTOR` to the 2D hash word and one step
/// along x adds `X_FACTOR * Y_FACTOR`, modulo 2^64; one step along z adds
/// `Z_FACTOR` to the 3D hash word.
pub proof fn lemma_hash_word_steps(seed: u64, x: i64, y: i64, z: i64)
    requires
        x < i64::MAX,
        y < i64::MAX,
        z < i64::MAX,
    ensures
        hash_word(seed, x, (y + 1) as i64) == (hash_word(seed, x, y) + 1274126177) % word(),
        hash_word(seed, (x + 1) as i64, y) == (hash_word(seed, x, y) + 668265263 * 1274126177) % word(),
        hash3_word(seed, x, y, (z + 1) as i64) == (hash3_word(seed, x, y, z) + 1911520717) % word(),
{
    let p = ((seed * SEED_FACTOR + x) * X_FACTOR + y) * Y_FACTOR;
    assert(((seed * SEED_FACTOR + x) * X_FACTOR + (y + 1)) * Y_FACTOR == p + 1274126177);
    assert(((seed * SEED_FACTOR + (x + 1)) * X_FACTOR + y) * Y_FACTOR == p + 668265263 * 1274126177);
    lemma_add_mod_noop(p, 1274126177, word());
    lemma_small_mod(1274126177, word() as nat);
    lemma_add_mod_noop(p, 668265263int * 1274126177, word());
    lemma_small_mod(668265263nat * 1274126177, word() as nat);
    let q = (p + z) * Z_FACTOR;
    assert((p + (z + 1)) * Z_FACTOR == q + 1911520717);
    lemma_add_mod_noop(q, 1911520717, word());
    lemma_small_mod(1911520717, word() as nat);
}

proof fn lemma_low_byte(x: i32)
    ensures
        (((x as u32) & 255u32) as int) == (x as int) % 256,
{
    let w = x as u32;
    if x < 0 {
        assert(w == x + 0x1_0000_0000) by (bit_vector)
            requires
                x < 0,
                w == x as u32,
        ;
    }
    assert((w & 255u32) == w % 256) by (bit_vector);
    lemma_mod_mod(x as int, 256, 0x100_0000);
    assert(256 * 0x100_0000 == 0x1_0000_0000);
    if x >= 0 {
        lemma_small_mod(x as nat, 0x1_0000_0000);
    } else {
        lemma_small_mod((x + 0x1_0000_0000) as nat, 0x1_0000_0000);
        lemma_mod_multiples_vanish(1, x as int, 0x1_0000_0000);
    }
}

/// A seeded arrangement of the 256 byte values, used to hash lattice points.
pub struct PermutationTable {
    values: Vec<u8>,
}

impl View for PermutationTable {
    type V = Seq<u8>;

    closed spec fn view(&self) -> Seq<u8> {
        self.values@
    }
}

impl PermutationTable {
    #[verifier::type_invariant]
    spec fn holds_permutation(self) -> bool {
        is_byte_permutation(self.values@)
    }

    /// Builds the table for `seed`: the identity arrangement shuffled by
    /// Fisher-Yates, with the scrambler choosing each exchange partner.
    pub fn new(seed: u64) -> (t: Self)
        ensures
            t@ == shuffled(seed),
            is_byte_permutation(t@),
    {
        let mut values: Vec<u8> = Vec::new();
        let mut k: usize = 0;
        while k < TABLE_SIZE
            invariant
                k <= 256,
                values@ == identity_table().take(k as int),
            decreases 256 - k,
        {
            values.push(k as u8);
            k = k + 1;
        }
        assert(values@ == shuffle_from(seed, 256));
        let mut i: usize = 255;
        while i >= 1
            invariant
                i <= 255,
                values@ == shuffle_from(seed, i + 1),
            decreases i,
        {
            proof {
                lemma_shuffle_from_is_permutation(seed, i + 1);
            }
            let r = scramble(seed, i);
            let j = (r % ((i + 1) as u64)) as usize;
            let vi = values[i];
            let vj = values[j];
            values.set(i, vj);
            values.set(j, vi);
            i = i - 1;
        }
        proof {
            lemma_shuffled_is_permutation(seed);
        }
        PermutationTable { values }
    }

    /// The entry at position `i`.
    pub fn value(&self, i: usize) -> (b: u8)
        requires
            i < 256,
        ensures
            b == self@[i as int],
    {
        proof {
            use_type_invariant(self);
        }
        self.values[i]
    }

    /// Hashes a 2D lattice point to a byte through two table lookups.
    pub fn hash2(&self, x: i32, y: i32) -> (r: u8)
        ensures
            r == lookup2(self@, x as int, y as int),
    {
        proof {
            use_type_invariant(self);
            lemma_low_byte(x);
            lemma_low_byte(y);
        }
        let a = self.values[((x as u32) & 255u32) as usize] as u32;
        let b = (y as u32) & 255u32;
        let sum = a + b;
        let idx = sum & 255u32;
        proof {
            assert(idx == sum % 256) by (bit_vector)
                requires
                    idx == sum & 255u32,
            ;
            lemma_add_mod_noop(a as int, y as int, 256);
            lemma_small_mod(a as nat, 256);
        }
        self.values[idx as usize]
    }

    /// Hashes a 3D lattice point to a byte through three table lookups.
    pub fn hash3(&self, x: i32, y: i32, z: i32) -> (r: u8)
        ensures
            r == lookup3(self@, x as int, y as int, z as int),
    {
        proof {
            use_type_invariant(self);
            lemma_low_byte(z);
        }
        let a = self.hash2(x, y) as u32;
        let c = (z as u32) & 255u32;
        let sum = a + c;
        let idx = sum & 255u32;
        proof {
            assert(idx == sum % 256) by (bit_vector)
                requires
                    idx == sum & 255u32,
            ;
            lemma_add_mod_noop(a as int, z as int, 256);
            lemma_small_mod(a as nat, 256);
        }
        self.values[idx as usize]
    }
}

/// Number of 2D gradient directions.
pub const GRADIENT_COUNT_2D: usize = 8;
/// Number of 3D gradient directions.
pub const GRADIENT_COUNT_3D: usize = 12;

/// The 2D gradient directions: the four axis directions, then the four diagonals.
pub open spec fn gradients_2d() -> Seq<(i8, i8)> {
    seq![(1i8, 0i8), (-1i8, 0i8), (0i8, 1i8), (0i8, -1i8), (1i8, 1i8), (-1i8, 1i8), (1i8, -1i8), (-1i8, -1i8)]
}

/// The 3D gradient directions: the midpoints of the twelve edges of the cube
/// `[-1, 1]^3`.
pub open spec fn gradients_3d() -> Seq<(i8, i8, i8)> {
    seq![
        (1i8, 1i8, 0i8), (-1i8, 1i8, 0i8), (1i8, -1i8, 0i8), (-1i8, -1i8, 0i8),
        (1i8, 0i8, 1i8), (-1i8, 0i8, 1i8), (1i8, 0i8, -1i8), (-1i8, 0i8, -1i8),
        (0i8, 1i8, 1i8), (0i8, -1i8, 1i8), (0i8, 1i8, -1i8), (0i8, -1i8, -1i8)
    ]
}

/// A 2D direction with unit components: each in `-1..=1`, not both zero.
pub open spec fn is_unit_direction_2d(g: (i8, i8)) -> bool {
    &&& -1 <= g.0 <= 1
    &&& -1 <= g.1 <= 1
    &&& (g.0 != 0 || g.1 != 0)
}

/// A midpoint of an edge of the cube `[-1, 1]^3`: one component is zero and the
/// other two are `1` or `-1`.
pub open spec fn is_cube_edge_midpoint(g: (i8, i8, i8)) -> bool {
    &&& -1 <= g.0 <= 1
    &&& -1 <= g.1 <= 1
    &&& -1 <= g.2 <= 1
    &&& (if g.0 == 0 { 1int } else { 0 }) + (if g.1 == 0 { 1int } else { 0 }) + (if g.2 == 0 { 1int } else { 0 }) == 1
}

/// The 2D gradient table lists each of the eight unit directions (axes and
/// diagonals) exactly once, so it is symmetric: the opposite of every gradient
/// is a gradient too.
pub proof fn lemma_gradients_2d_are_the_eight_directions()
    ensures
        gradients_2d().len() == 8,
        forall|i: int| 0 <= i < 8 ==> is_unit_direction_2d(#[trigger] gradients_2d()[i]),
        forall|i: int, j: int| 0 <= i < 8 && 0 <= j < 8 && i != j ==> gradients_2d()[i] != gradients_2d()[j],
        forall|g: (i8, i8)| #[trigger] is_unit_direction_2d(g) ==> exists|i: int| 0 <= i < 8 && #[trigger] gradients_2d()[i] == g,
        forall|i: int| #![trigger gradients_2d()[i]] 0 <= i < 8 ==> exists|j: int| 0 <= j < 8 && #[trigger] gradients_2d()[j].0 == -gradients_2d()[i].0
            && gradients_2d()[j].1 == -gradients_2d()[i].1,
{
    let t = gradients_2d();
    assert(t.len() == 8);
    assert(t[0] == (1i8, 0i8) && t[1] == (-1i8, 0i8) && t[2] == (0i8, 1i8) && t[3] == (0i8, -1i8));
    assert(t[4] == (1i8, 1i8) && t[5] == (-1i8, 1i8) && t[6] == (1i8, -1i8) && t[7] == (-1i8, -1i8));
    assert forall|g: (i8, i8)| #[trigger] is_unit_direction_2d(g) implies exists|i: int| 0 <= i < 8 && #[trigger] t[i] == g by {
        if g == t[0] {
        } else if g == t[1] {
        } else if g == t[2] {
        } else if g == t[3] {
        } else if g == t[4] {
        } else if g == t[5] {
        } else if g == t[6] {
        } else {
            assert(g == t[7]);
        }
    }
    assert forall|i: int| #![trigger t[i]] 0 <= i < 8 implies exists|j: int| 0 <= j < 8 && #[trigger] t[j].0 == -t[i].0 && t[j].1 == -t[i].1 by {
        let j = if i < 4 { if i % 2 == 0 { i + 1 } else { i - 1 } } else { 11 - i };
        assert(t[j].0 == -t[i].0 && t[j].1 == -t[i].1);
    }
}

proof fn lemma_gradients_3d_entries()
    ensures
        gradients_3d().len() == 12,
        gradients_3d()[0] == (1i8, 1i8, 0i8),
        gradients_3d()[1] == (-1i8, 1i8, 0i8),
        gradients_3d()[2] == (1i8, -1i8, 0i8),
        gradients_3d()[3] == (-1i8, -1i8, 0i8),
        gradients_3d()[4] == (1i8, 0i8, 1i8),
        gradients_3d()[5] == (-1i8, 0i8, 1i8),
        gradients_3d()[6] == (1i8, 0i8, -1i8),
        gradients_3d()[7] == (-1i8, 0i8, -1i8),
        gradients_3d()[8] == (0i8, 1i8, 1i8),
        gradients_3d()[9] == (0i8, -1i8, 1i8),
        gradients_3d()[10] == (0i8, 1i8, -1i8),
        gradients_3d()[11] == (0i8, -1i8, -1i8),
{
}

/// Position of a cube edge midpoint in the 3D gradient table: grouped by the
/// zero axis (z, then y, then x), then by the signs of the other two components.
spec fn cube_edge_index(g: (i8, i8, i8)) -> int {
    if g.2 == 0 {
        (if g.0 == 1 { 0int } else { 1 }) + (if g.1 == 1 { 0int } else { 2 })
    } else if g.1 == 0 {
        4 + (if g.0 == 1 { 0int } else { 1 }) + (if g.2 == 1 { 0int } else { 2 })
    } else {
        8 + (if g.1 == 1 { 0int } else { 1 }) + (if g.2 == 1 { 0int } else { 2 })
    }
}

proof fn lemma_gradients_3d_distinct()
    ensures
        forall|i: int, j: int| 0 <= i < 12 && 0 <= j < 12 && i != j ==> gradients_3d()[i] != gradients_3d()[j],
{
    let t = gradients_3d();
    lemma_gradients_3d_entries();
    assert forall|i: int, j: int| 0 <= i < 12 && 0 <= j < 12 && i != j implies t[i] != t[j] by {
        lemma_cube_edge_index_of_entry(i);
        lemma_cube_edge_index_of_entry(j);
    }
}

proof fn lemma_cube_edge_index_of_entry(i: int)
    requires
        0 <= i < 12,
    ensures
        cube_edge_index(gradients_3d()[i]) == i,
        is_cube_edge_midpoint(gradients_3d()[i]),
{
    lemma_gradients_3d_entries();
}

proof fn lemma_gradients_3d_cover_midpoints(g: (i8, i8, i8))
    requires
        is_cube_edge_midpoint(g),
    ensures
        0 <= cube_edge_index(g) < 12,
        gradients_3d()[cube_edge_index(g)] == g,
{
    lemma_gradients_3d_entries();
}

/// The 3D gradient table lists each of the twelve midpoints of the edges of the
/// cube `[-1, 1]^3` exactly once, so the opposite of every gradient is a
/// gradient too.
pub proof fn lemma_gradients_3d_are_the_cube_edge_midpoints()
    ensures
        gradients_3d().len() == 12,
        forall|i: int| 0 <= i < 12 ==> is_cube_edge_midpoint(#[trigger] gradients_3d()[i]),
        forall|i: int, j: int| 0 <= i < 12 && 0 <= j < 12 && i != j ==> gradients_3d()[i] != gradients_3d()[j],
        forall|g: (i8, i8, i8)| #[trigger] is_cube_edge_midpoint(g) ==> exists|i: int| 0 <= i < 12 && #[trigger] gradients_3d()[i] == g,
        forall|i: int| #![trigger gradients_3d()[i]] 0 <= i < 12 ==> exists|j: int| 0 <= j < 12 && #[trigger] gradients_3d()[j].0 == -gradients_3d()[i].0
            && gradients_3d()[j].1 == -gradients_3d()[i].1 && gradients_3d()[j].2 == -gradients_3d()[i].2,
{
    let t = gradients_3d();
    lemma_gradients_3d_entries();
    lemma_gradients_3d_distinct();
    assert forall|i: int| 0 <= i < 12 implies is_cube_edge_midpoint(#[trigger] t[i]) by {
        lemma_cube_edge_index_of_entry(i);
    }
    assert forall|g: (i8, i8, i8)| #[trigger] is_cube_edge_midpoint(g) implies exists|i: int| 0 <= i < 12 && #[trigger] t[i] == g by {
        lemma_gradients_3d_cover_midpoints(g);
    }
    assert forall|i: int| #![trigger t[i]] 0 <= i < 12 implies exists|j: int| 0 <= j < 12 && #[trigger] t[j].0 == -t[i].0 && t[j].1 == -t[i].1
        && t[j].2 == -t[i].2 by {
        let j = i - i % 4 + (3 - i % 4);
        assert(t[j].0 == -t[i].0 && t[j].1 == -t[i].1 && t[j].2 == -t[i].2);
    }
}

/// The 2D gradient direction at `index`.
pub fn gradient_2d(index: usize) -> (g: (i8, i8))
    requires
        index < 8,
    ensures
        g == gradients_2d()[index as int],
{
    match index {
        0 => (1, 0),
        1 => (-1, 0),
        2 => (0, 1),
        3 => (0, -1),
        4 => (1, 1),
        5 => (-1, 1),
        6 => (1, -1),
        _ => (-1, -1),
    }
}

/// The 3D gradient direction at `index`.
pub fn gradient_3d(index: usize) -> (g: (i8, i8, i8))
    requires
        index < 12,
    ensures
        g == gradients_3d()[index as int],
{
    match index {
        0 => (1, 1, 0),
        1 => (-1, 1, 0),
        2 => (1, -1, 0),
        3 => (-1, -1, 0),
        4 => (1, 0, 1),
        5 => (-1, 0, 1),
        6 => (1, 0, -1),
        7 => (-1, 0, -1),
        8 => (0, 1, 1),
        9 => (0, -1, 1),
        10 => (0, 1, -1),
        _ => (0, -1, -1),
    }
}

} // verus!
