//! A seeded, fully deterministic source of pseudo-random values and
//! coherent noise fields, used by the terrain generators.
//!
//! Values are fixed-point: noise samples are integers in `[-1000, 1000]`
//! standing for thousandths, and sample coordinates are given in
//! thousandths of a lattice cell.  The same seed always yields the same
//! outputs, on every machine; the contracts pin every result to a
//! specification-level function of the seed, so determinism is proved, not
//! assumed.

use vstd::prelude::*;

verus! {

/// The additive constant of the state sequence (the golden-ratio
/// increment).
pub const STATE_INCREMENT: u64 = 0x9E3779B97F4A7C15;

/// A seeded pseudo-random generator.  `state` advances by one step per
/// draw; coherent-noise sampling depends on the seed alone.
#[derive(Debug, Clone, Copy, PartialEq, Eq, Structural)]
pub struct NoiseGenerator {
    /// The seed this generator was created from.
    pub seed: i64,
    /// The state of the sequential draw stream.
    pub state: u64,
}

/// The 64-bit word that stands for a signed value: its two's-complement
/// bit pattern, reached by arithmetic alone.
pub open spec fn spec_word_of(v: int) -> u64 {
    if v >= 0 {
        (v % 0x1_0000_0000_0000_0000) as u64
    } else {
        (0xFFFF_FFFF_FFFF_FFFF - ((-(v + 1)) % 0x1_0000_0000_0000_0000)) as u64
    }
}

/// The output mixer of the generator: a finalizer that scrambles a state
/// word into an output word.
pub open spec fn spec_mix(z: u64) -> u64 {
    let a = vstd::wrapping::u64_specs::wrapping_mul(z ^ (z >> 30), 0xBF58476D1CE4E5B9);
    let b = vstd::wrapping::u64_specs::wrapping_mul(a ^ (a >> 27), 0x94D049BB133111EB);
    b ^ (b >> 31)
}

/// The state that follows a state.
pub open spec fn spec_next_state(s: u64) -> u64 {
    vstd::wrapping::u64_specs::wrapping_add(s, STATE_INCREMENT)
}

/// The output word of one draw from a state.
pub open spec fn spec_draw(s: u64) -> u64 {
    spec_mix(spec_next_state(s))
}

/// The stateless hash of a seed, a purpose tag and three coordinates.
/// Every position-keyed random decision of the terrain generators comes
/// from this hash, which makes generation independent of call order.
pub open spec fn spec_cell_hash(seed: i64, tag: u64, a: int, b: int, c: int) -> u64 {
    let h0 = spec_mix(spec_word_of(seed as int) ^ tag);
    let h1 = spec_mix(h0 ^ spec_word_of(a));
    let h2 = spec_mix(h1 ^ spec_word_of(b));
    spec_mix(h2 ^ spec_word_of(c))
}

/// The lattice value at a corner, in `[0, 2000]`: the hashed corner
/// reduced to the fixed-point range (offset by 1000).
pub open spec fn spec_corner(seed: i64, tag: u64, a: int, b: int, c: int) -> int {
    spec_cell_hash(seed, tag, a, b, c) as int % 2001
}

/// A position-keyed random fraction in thousandths.
pub open spec fn spec_hash_milli(seed: i64, tag: u64, a: int, b: int, c: int) -> int {
    spec_cell_hash(seed, tag, a, b, c) as int % 1000
}

/// Linear interpolation between two offset samples `a, b` in `[0, 2000]`
/// with a fraction `f` in thousandths.
pub open spec fn spec_lerp(a: int, b: int, f: int) -> int {
    (a * (1000 - f) + b * f) / 1000
}

/// A two-dimensional coherent noise sample in `[-1000, 1000]`, at a point
/// given in thousandths of a lattice cell.  `tag` separates independent
/// noise fields (one per octave).
#[verifier::opaque]
pub open spec fn spec_noise_2d(seed: i64, tag: u64, x: int, z: int) -> int {
    let x0 = x / 1000;
    let z0 = z / 1000;
    let fx = x % 1000;
    let fz = z % 1000;
    let v00 = spec_corner(seed, tag, x0, z0, 0);
    let v10 = spec_corner(seed, tag, x0 + 1, z0, 0);
    let v01 = spec_corner(seed, tag, x0, z0 + 1, 0);
    let v11 = spec_corner(seed, tag, x0 + 1, z0 + 1, 0);
    spec_lerp(spec_lerp(v00, v10, fx), spec_lerp(v01, v11, fx), fz) - 1000
}

/// A three-dimensional coherent noise sample in `[-1000, 1000]`.
#[verifier::opaque]
pub open spec fn spec_noise_3d(seed: i64, tag: u64, x: int, y: int, z: int) -> int {
    let x0 = x / 1000;
    let y0 = y / 1000;
    let z0 = z / 1000;
    let fx = x % 1000;
    let fy = y % 1000;
    let fz = z % 1000;
    let v000 = spec_corner(seed, tag, x0, y0, z0);
    let v100 = spec_corner(seed, tag, x0 + 1, y0, z0);
    let v010 = spec_corner(seed, tag, x0, y0 + 1, z0);
    let v110 = spec_corner(seed, tag, x0 + 1, y0 + 1, z0);
    let v001 = spec_corner(seed, tag, x0, y0, z0 + 1);
    let v101 = spec_corner(seed, tag, x0 + 1, y0, z0 + 1);
    let v011 = spec_corner(seed, tag, x0, y0 + 1, z0 + 1);
    let v111 = spec_corner(seed, tag, x0 + 1, y0 + 1, z0 + 1);
    let front = spec_lerp(spec_lerp(v000, v100, fx), spec_lerp(v010, v110, fx), fy);
    let back = spec_lerp(spec_lerp(v001, v101, fx), spec_lerp(v011, v111, fx), fy);
    spec_lerp(front, back, fz) - 1000
}

/// A fractal (multi-octave) two-dimensional sample in `[-1000, 1000]`:
/// six octaves, frequency doubling per octave, amplitude halving per
/// octave, normalized by the amplitude sum.
pub open spec fn spec_fbm_2d(seed: i64, x: int, z: int) -> int {
    let n0 = spec_noise_2d(seed, 0, x, z) + 1000;
    let n1 = spec_noise_2d(seed, 1, x * 2, z * 2) + 1000;
    let n2 = spec_noise_2d(seed, 2, x * 4, z * 4) + 1000;
    let n3 = spec_noise_2d(seed, 3, x * 8, z * 8) + 1000;
    let n4 = spec_noise_2d(seed, 4, x * 16, z * 16) + 1000;
    let n5 = spec_noise_2d(seed, 5, x * 32, z * 32) + 1000;
    (n0 * 1000 + n1 * 500 + n2 * 250 + n3 * 125 + n4 * 62 + n5 * 31) / 1968 - 1000
}

/// A fractal (multi-octave) three-dimensional sample in `[-1000, 1000]`,
/// built like its two-dimensional counterpart.
pub open spec fn spec_fbm_3d(seed: i64, x: int, y: int, z: int) -> int {
    let n0 = spec_noise_3d(seed, 0, x, y, z) + 1000;
    let n1 = spec_noise_3d(seed, 1, x * 2, y * 2, z * 2) + 1000;
    let n2 = spec_noise_3d(seed, 2, x * 4, y * 4, z * 4) + 1000;
    let n3 = spec_noise_3d(seed, 3, x * 8, y * 8, z * 8) + 1000;
    let n4 = spec_noise_3d(seed, 4, x * 16, y * 16, z * 16) + 1000;
    let n5 = spec_noise_3d(seed, 5, x * 32, y * 32, z * 32) + 1000;
    (n0 * 1000 + n1 * 500 + n2 * 250 + n3 * 125 + n4 * 62 + n5 * 31) / 1968 - 1000
}

/// The bound under which sample coordinates stay clear of `i64` overflow.
pub open spec fn sample_in_range(v: int) -> bool {
    -0x4000_0000_0000 <= v <= 0x4000_0000_0000
}

/// The tighter bound that fractal sampling asks of its inputs, so that
/// every octave doubling stays a valid sample coordinate.
pub open spec fn fbm_in_range(v: int) -> bool {
    -0x40_0000_0000 <= v <= 0x40_0000_0000
}

/// Interpolating two offset samples stays in `[0, 2000]`.
proof fn lemma_lerp_bounds(a: int, b: int, f: int)
    requires
        0 <= a <= 2000,
        0 <= b <= 2000,
        0 <= f < 1000,
    ensures
        0 <= spec_lerp(a, b, f) <= 2000,
{
    assert(0 <= a * (1000 - f) + b * f <= 2_000_000) by (nonlinear_arith)
        requires
            0 <= a <= 2000,
            0 <= b <= 2000,
            0 <= f < 1000,
    ;
}

/// A two-dimensional sample stays in `[-1000, 1000]`.
pub proof fn lemma_noise_2d_bounds(seed: i64, tag: u64, x: int, z: int)
    ensures
        -1000 <= spec_noise_2d(seed, tag, x, z) <= 1000,
{
    reveal(spec_noise_2d);
    let x0 = x / 1000;
    let z0 = z / 1000;
    let fx = x % 1000;
    let fz = z % 1000;
    lemma_lerp_bounds(
        spec_corner(seed, tag, x0, z0, 0),
        spec_corner(seed, tag, x0 + 1, z0, 0),
        fx,
    );
    lemma_lerp_bounds(
        spec_corner(seed, tag, x0, z0 + 1, 0),
        spec_corner(seed, tag, x0 + 1, z0 + 1, 0),
        fx,
    );
    lemma_lerp_bounds(
        spec_lerp(spec_corner(seed, tag, x0, z0, 0), spec_corner(seed, tag, x0 + 1, z0, 0), fx),
        spec_lerp(
            spec_corner(seed, tag, x0, z0 + 1, 0),
            spec_corner(seed, tag, x0 + 1, z0 + 1, 0),
            fx,
        ),
        fz,
    );
}

/// A three-dimensional sample stays in `[-1000, 1000]`.
pub proof fn lemma_noise_3d_bounds(seed: i64, tag: u64, x: int, y: int, z: int)
    ensures
        -1000 <= spec_noise_3d(seed, tag, x, y, z) <= 1000,
{
    reveal(spec_noise_3d);
    let x0 = x / 1000;
    let y0 = y / 1000;
    let z0 = z / 1000;
    let fx = x % 1000;
    let fy = y % 1000;
    let fz = z % 1000;
    let v000 = spec_corner(seed, tag, x0, y0, z0);
    let v100 = spec_corner(seed, tag, x0 + 1, y0, z0);
    let v010 = spec_corner(seed, tag, x0, y0 + 1, z0);
    let v110 = spec_corner(seed, tag, x0 + 1, y0 + 1, z0);
    let v001 = spec_corner(seed, tag, x0, y0, z0 + 1);
    let v101 = spec_corner(seed, tag, x0 + 1, y0, z0 + 1);
    let v011 = spec_corner(seed, tag, x0, y0 + 1, z0 + 1);
    let v111 = spec_corner(seed, tag, x0 + 1, y0 + 1, z0 + 1);
    lemma_lerp_bounds(v000, v100, fx);
    lemma_lerp_bounds(v010, v110, fx);
    lemma_lerp_bounds(v001, v101, fx);
    lemma_lerp_bounds(v011, v111, fx);
    lemma_lerp_bounds(spec_lerp(v000, v100, fx), spec_lerp(v010, v110, fx), fy);
    lemma_lerp_bounds(spec_lerp(v001, v101, fx), spec_lerp(v011, v111, fx), fy);
    lemma_lerp_bounds(
        spec_lerp(spec_lerp(v000, v100, fx), spec_lerp(v010, v110, fx), fy),
        spec_lerp(spec_lerp(v001, v101, fx), spec_lerp(v011, v111, fx), fy),
        fz,
    );
}

/// A fractal sample stays in `[-1000, 1000]`.
pub proof fn lemma_fbm_2d_bounds(seed: i64, x: int, z: int)
    ensures
        -1000 <= spec_fbm_2d(seed, x, z) <= 1000,
{
    lemma_noise_2d_bounds(seed, 0, x, z);
    lemma_noise_2d_bounds(seed, 1, x * 2, z * 2);
    lemma_noise_2d_bounds(seed, 2, x * 4, z * 4);
    lemma_noise_2d_bounds(seed, 3, x * 8, z * 8);
    lemma_noise_2d_bounds(seed, 4, x * 16, z * 16);
    lemma_noise_2d_bounds(seed, 5, x * 32, z * 32);
}

/// A three-dimensional fractal sample stays in `[-1000, 1000]`.
pub proof fn lemma_fbm_3d_bounds(seed: i64, x: int, y: int, z: int)
    ensures
        -1000 <= spec_fbm_3d(seed, x, y, z) <= 1000,
{
    lemma_noise_3d_bounds(seed, 0, x, y, z);
    lemma_noise_3d_bounds(seed, 1, x * 2, y * 2, z * 2);
    lemma_noise_3d_bounds(seed, 2, x * 4, y * 4, z * 4);
    lemma_noise_3d_bounds(seed, 3, x * 8, y * 8, z * 8);
    lemma_noise_3d_bounds(seed, 4, x * 16, y * 16, z * 16);
    lemma_noise_3d_bounds(seed, 5, x * 32, y * 32, z * 32);
}

/// Computes the 64-bit word that stands for a signed value.
fn word_of(v: i64) -> (r: u64)
    ensures
        r == spec_word_of(v as int),
{
    if v >= 0 {
        v as u64
    } else {
        0xFFFF_FFFF_FFFF_FFFFu64 - ((-(v + 1)) as u64)
    }
}

/// Computes the output mixer.
fn mix(z: u64) -> (r: u64)
    ensures
        r == spec_mix(z),
{
    let a = (z ^ (z >> 30)).wrapping_mul(0xBF58476D1CE4E5B9);
    let b = (a ^ (a >> 27)).wrapping_mul(0x94D049BB133111EB);
    b ^ (b >> 31)
}

/// Computes the stateless cell hash.
pub(crate) fn cell_hash(seed: i64, tag: u64, a: i64, b: i64, c: i64) -> (r: u64)
    ensures
        r == spec_cell_hash(seed, tag, a as int, b as int, c as int),
{
    let h0 = mix(word_of(seed) ^ tag);
    let h1 = mix(h0 ^ word_of(a));
    let h2 = mix(h1 ^ word_of(b));
    mix(h2 ^ word_of(c))
}

/// Computes a position-keyed random fraction in thousandths.
pub(crate) fn hash_milli(seed: i64, tag: u64, a: i64, b: i64, c: i64) -> (r: u32)
    ensures
        r == spec_hash_milli(seed, tag, a as int, b as int, c as int),
        r < 1000,
{
    (cell_hash(seed, tag, a, b, c) % 1000) as u32
}

/// Computes a lattice corner value in `[0, 2000]`.
fn corner(seed: i64, tag: u64, a: i64, b: i64, c: i64) -> (r: u64)
    ensures
        r == spec_corner(seed, tag, a as int, b as int, c as int),
        r <= 2000,
{
    cell_hash(seed, tag, a, b, c) % 2001
}

/// Interpolates two offset samples with a fraction in thousandths.
fn lerp(a: u64, b: u64, f: u64) -> (r: u64)
    requires
        a <= 2000,
        b <= 2000,
        f < 1000,
    ensures
        r == spec_lerp(a as int, b as int, f as int),
        r <= 2000,
{
    proof {
        lemma_lerp_bounds(a as int, b as int, f as int);
        assert(a * (1000 - f) + b * f <= 2_000_000) by (nonlinear_arith)
            requires
                a <= 2000,
                b <= 2000,
                f < 1000,
        ;
    }
    (a * (1000 - f) + b * f) / 1000
}

/// The whole and the fractional part of a sample coordinate given in
/// thousandths of a lattice cell.
fn split_coord(v: i64) -> (r: (i64, u64))
    requires
        sample_in_range(v as int),
    ensures
        r.0 == v as int / 1000,
        r.1 == v as int % 1000,
        r.1 < 1000,
{
    let cell = if v < 0 && v % 1000 != 0 {
        v / 1000 - 1
    } else {
        v / 1000
    };
    let frac = ((v % 1000) + 1000) % 1000;
    (cell, frac as u64)
}

impl NoiseGenerator {
    /// Creates a new noise generator from a seed.
    pub fn new(seed: i64) -> (r: NoiseGenerator)
        ensures
            r.seed == seed,
            r.state == spec_word_of(seed as int),
    {
        NoiseGenerator { seed, state: word_of(seed) }
    }

    /// Draws the next word of the stream, advancing the state.
    fn next_word(&mut self) -> (r: u64)
        ensures
            final(self).seed == old(self).seed,
            final(self).state == spec_next_state(old(self).state),
            r == spec_draw(old(self).state),
    {
        self.state = self.state.wrapping_add(STATE_INCREMENT);
        mix(self.state)
    }

    /// Draws a random integer from the inclusive range `[min, max]`.
    pub fn random_int(&mut self, min: i32, max: i32) -> (r: i32)
        requires
            min <= max,
        ensures
            min <= r <= max,
            r == min + spec_draw(old(self).state) as int % (max - min + 1),
            final(self).seed == old(self).seed,
            final(self).state == spec_next_state(old(self).state),
    {
        let draw = self.next_word();
        let span = (max as i64 - min as i64 + 1) as u64;
        let offset = draw % span;
        (min as i64 + offset as i64) as i32
    }

    /// Draws a random value in `[0, 1000)`: a fraction in thousandths.
    pub fn random_milli(&mut self) -> (r: u32)
        ensures
            r < 1000,
            r == spec_draw(old(self).state) as int % 1000,
            final(self).seed == old(self).seed,
            final(self).state == spec_next_state(old(self).state),
    {
        let draw = self.next_word();
        (draw % 1000) as u32
    }

    /// Draws a random boolean that is true with the given probability in
    /// thousandths.
    pub fn random_bool(&mut self, probability_milli: u32) -> (r: bool)
        ensures
            r <==> (spec_draw(old(self).state) as int % 1000 < probability_milli),
            final(self).seed == old(self).seed,
            final(self).state == spec_next_state(old(self).state),
    {
        let draw = self.next_word();
        let milli = (draw % 1000) as u32;
        milli < probability_milli
    }

    /// Samples single-octave two-dimensional noise at a point given in
    /// thousandths of a lattice cell.
    pub fn noise_2d(&self, x: i64, z: i64) -> (r: i64)
        requires
            sample_in_range(x as int),
            sample_in_range(z as int),
        ensures
            r == spec_noise_2d(self.seed, 0, x as int, z as int),
            -1000 <= r <= 1000,
    {
        noise_2d_tagged(self.seed, 0, x, z)
    }

    /// Samples single-octave three-dimensional noise at a point given in
    /// thousandths of a lattice cell.
    pub fn noise_3d(&self, x: i64, y: i64, z: i64) -> (r: i64)
        requires
            sample_in_range(x as int),
            sample_in_range(y as int),
            sample_in_range(z as int),
        ensures
            r == spec_noise_3d(self.seed, 0, x as int, y as int, z as int),
            -1000 <= r <= 1000,
    {
        noise_3d_tagged(self.seed, 0, x, y, z)
    }

    /// Samples fractal three-dimensional noise: six octaves with doubling
    /// frequency and halving amplitude.
    #[verifier::rlimit(50)]
    pub fn fbm_3d(&self, x: i64, y: i64, z: i64) -> (r: i64)
        requires
            fbm_in_range(x as int),
            fbm_in_range(y as int),
            fbm_in_range(z as int),
        ensures
            r == spec_fbm_3d(self.seed, x as int, y as int, z as int),
            -1000 <= r <= 1000,
    {
        let n0 = (noise_3d_tagged(self.seed, 0, x, y, z) + 1000) as u64;
        let n1 = (noise_3d_tagged(self.seed, 1, x * 2, y * 2, z * 2) + 1000) as u64;
        let n2 = (noise_3d_tagged(self.seed, 2, x * 4, y * 4, z * 4) + 1000) as u64;
        let n3 = (noise_3d_tagged(self.seed, 3, x * 8, y * 8, z * 8) + 1000) as u64;
        let n4 = (noise_3d_tagged(self.seed, 4, x * 16, y * 16, z * 16) + 1000) as u64;
        let n5 = (noise_3d_tagged(self.seed, 5, x * 32, y * 32, z * 32) + 1000) as u64;
        let sum = n0 * 1000 + n1 * 500 + n2 * 250 + n3 * 125 + n4 * 62 + n5 * 31;
        (sum / 1968) as i64 - 1000
    }

    /// Samples fractal two-dimensional noise: six octaves with doubling
    /// frequency and halving amplitude.
    #[verifier::rlimit(50)]
    pub fn fbm_2d(&self, x: i64, z: i64) -> (r: i64)
        requires
            fbm_in_range(x as int),
            fbm_in_range(z as int),
        ensures
            r == spec_fbm_2d(self.seed, x as int, z as int),
            -1000 <= r <= 1000,
    {
        let n0 = (noise_2d_tagged(self.seed, 0, x, z) + 1000) as u64;
        let n1 = (noise_2d_tagged(self.seed, 1, x * 2, z * 2) + 1000) as u64;
        let n2 = (noise_2d_tagged(self.seed, 2, x * 4, z * 4) + 1000) as u64;
        let n3 = (noise_2d_tagged(self.seed, 3, x * 8, z * 8) + 1000) as u64;
        let n4 = (noise_2d_tagged(self.seed, 4, x * 16, z * 16) + 1000) as u64;
        let n5 = (noise_2d_tagged(self.seed, 5, x * 32, z * 32) + 1000) as u64;
        let sum = n0 * 1000 + n1 * 500 + n2 * 250 + n3 * 125 + n4 * 62 + n5 * 31;
        (sum / 1968) as i64 - 1000
    }
}

/// The surface height of a column, derived from fractal noise: noise in
/// `[-1000, 1000]` scaled to thirty blocks of relief, rounded to the
/// nearest block, over a base height of 64 — so heights lie in
/// `[64, 124]`.
pub open spec fn spec_surface_height(
    seed: i64,
    scale_milli: int,
    cx: int,
    cz: int,
    x: int,
    z: int,
) -> int {
    let wx = cx * 16 + x;
    let wz = cz * 16 + z;
    ((spec_fbm_2d(seed, wx * scale_milli / 100, wz * scale_milli / 100) + 1000) * 30 + 500)
        / 1000 + 64
}

/// The cave-noise sample of a cell, in `[-1000, 1000]`.
pub open spec fn spec_cave_sample(
    seed: i64,
    scale_milli: int,
    cx: int,
    cy: int,
    cz: int,
    x: int,
    y: int,
    z: int,
) -> int {
    let wx = cx * 16 + x;
    let wy = cy * 16 + y;
    let wz = cz * 16 + z;
    spec_noise_3d(
        seed,
        0,
        wx * scale_milli / 20,
        wy * scale_milli / 20,
        wz * scale_milli / 20,
    )
}

/// Surface heights stay in `[64, 124]`.
pub proof fn lemma_surface_height_bounds(
    seed: i64,
    scale_milli: int,
    cx: int,
    cz: int,
    x: int,
    z: int,
)
    ensures
        64 <= spec_surface_height(seed, scale_milli, cx, cz, x, z) <= 124,
{
    let wx = cx * 16 + x;
    let wz = cz * 16 + z;
    lemma_fbm_2d_bounds(seed, wx * scale_milli / 100, wz * scale_milli / 100);
}

/// The bound on the scale factor, in thousandths: at most a tenfold
/// magnification.
pub open spec fn scale_in_range(scale_milli: int) -> bool {
    1 <= scale_milli <= 10_000
}

/// Floor division by 100 on machine integers, matching
/// specification-level division.
fn floor_div_100(v: i64) -> (r: i64)
    requires
        -0x7FFF_FFFF_FFFF_0000 <= v <= 0x7FFF_FFFF_FFFF_0000,
    ensures
        r == v as int / 100,
{
    if v < 0 && v % 100 != 0 {
        v / 100 - 1
    } else {
        v / 100
    }
}

/// Floor division by 20 on machine integers, matching
/// specification-level division.
fn floor_div_20(v: i64) -> (r: i64)
    requires
        -0x7FFF_FFFF_FFFF_0000 <= v <= 0x7FFF_FFFF_FFFF_0000,
    ensures
        r == v as int / 20,
{
    if v < 0 && v % 20 != 0 {
        v / 20 - 1
    } else {
        v / 20
    }
}

/// Scales a world coordinate into a fractal sample coordinate:
/// `w * scale / 100`, in thousandths of a lattice cell.
fn scaled_coord_100(w: i64, scale_milli: u32) -> (r: i64)
    requires
        -0x4100_0000 <= w <= 0x4100_0000,
        scale_in_range(scale_milli as int),
    ensures
        r == w as int * scale_milli as int / 100,
        fbm_in_range(r as int),
{
    proof {
        assert(-0x1000_0000_0000 <= w * scale_milli <= 0x1000_0000_0000) by (nonlinear_arith)
            requires
                -0x4100_0000 <= w <= 0x4100_0000,
                1 <= scale_milli <= 10_000,
        ;
        assert(-0x40_0000_0000 <= w * scale_milli / 100 <= 0x40_0000_0000) by (nonlinear_arith)
            requires
                -0x1000_0000_0000 <= w * scale_milli <= 0x1000_0000_0000,
        ;
    }
    floor_div_100(w * scale_milli as i64)
}

/// Scales a world coordinate into a cave sample coordinate:
/// `w * scale / 20`, in thousandths of a lattice cell.
fn scaled_coord_20(w: i64, scale_milli: u32) -> (r: i64)
    requires
        -0x4100_0000 <= w <= 0x4100_0000,
        scale_in_range(scale_milli as int),
    ensures
        r == w as int * scale_milli as int / 20,
        sample_in_range(r as int),
{
    proof {
        assert(-0x1000_0000_0000 <= w * scale_milli <= 0x1000_0000_0000) by (nonlinear_arith)
            requires
                -0x4100_0000 <= w <= 0x4100_0000,
                1 <= scale_milli <= 10_000,
        ;
        assert(-0x4000_0000_0000 <= w * scale_milli / 20 <= 0x4000_0000_0000) by (nonlinear_arith)
            requires
                -0x1000_0000_0000 <= w * scale_milli <= 0x1000_0000_0000,
        ;
    }
    floor_div_20(w * scale_milli as i64)
}

impl NoiseGenerator {
    /// Generates the 16x16 grid of surface heights of a chunk column,
    /// flattened in `x * 16 + z` order.  Heights lie in `[64, 124]`.
    pub fn generate_heightmap(&self, chunk_x: i32, chunk_z: i32, scale_milli: u32) -> (r: Vec<
        i32,
    >)
        requires
            crate::pos::coord_in_range(chunk_x as int),
            crate::pos::coord_in_range(chunk_z as int),
            scale_in_range(scale_milli as int),
        ensures
            r@.len() == 256,
            forall|i: int|
                0 <= i < 256 ==> #[trigger] r@[i] == spec_surface_height(
                    self.seed,
                    scale_milli as int,
                    chunk_x as int,
                    chunk_z as int,
                    i / 16,
                    i % 16,
                ),
            forall|i: int| 0 <= i < 256 ==> 64 <= #[trigger] r@[i] <= 124,
    {
        let mut heights: Vec<i32> = Vec::new();
        let mut x: usize = 0;
        while x < 16
            invariant
                crate::pos::coord_in_range(chunk_x as int),
                crate::pos::coord_in_range(chunk_z as int),
                scale_in_range(scale_milli as int),
                x <= 16,
                heights@.len() == x * 16,
                forall|i: int|
                    0 <= i < heights@.len() ==> #[trigger] heights@[i] == spec_surface_height(
                        self.seed,
                        scale_milli as int,
                        chunk_x as int,
                        chunk_z as int,
                        i / 16,
                        i % 16,
                    ),
                forall|i: int| 0 <= i < heights@.len() ==> 64 <= #[trigger] heights@[i] <= 124,
            decreases 16 - x,
        {
            let mut z: usize = 0;
            while z < 16
                invariant
                    crate::pos::coord_in_range(chunk_x as int),
                    crate::pos::coord_in_range(chunk_z as int),
                    scale_in_range(scale_milli as int),
                    x < 16,
                    z <= 16,
                    heights@.len() == x * 16 + z,
                    forall|i: int|
                        0 <= i < heights@.len() ==> #[trigger] heights@[i] == spec_surface_height(
                            self.seed,
                            scale_milli as int,
                            chunk_x as int,
                            chunk_z as int,
                            i / 16,
                            i % 16,
                        ),
                    forall|i: int| 0 <= i < heights@.len() ==> 64 <= #[trigger] heights@[i] <= 124,
                decreases 16 - z,
            {
                let wx = chunk_x as i64 * 16 + x as i64;
                let wz = chunk_z as i64 * 16 + z as i64;
                let sx = scaled_coord_100(wx, scale_milli);
                let sz = scaled_coord_100(wz, scale_milli);
                let noise = self.fbm_2d(sx, sz);
                let height = (((noise + 1000) * 30 + 500) / 1000 + 64) as i32;
                proof {
                    assert((x * 16 + z) / 16 == x && (x * 16 + z) % 16 == z) by (nonlinear_arith)
                        requires
                            x < 16,
                            z < 16,
                    ;
                    lemma_surface_height_bounds(
                        self.seed,
                        scale_milli as int,
                        chunk_x as int,
                        chunk_z as int,
                        x as int,
                        z as int,
                    );
                }
                heights.push(height);
                z = z + 1;
            }
            x = x + 1;
        }
        heights
    }

    /// Generates the 16x16x16 grid of cave-noise samples of a chunk,
    /// flattened in the row-major cell order of a section.  Samples lie in
    /// `[-1000, 1000]`.
    pub fn generate_3d_noise(
        &self,
        chunk_x: i32,
        chunk_y: i32,
        chunk_z: i32,
        scale_milli: u32,
    ) -> (r: Vec<i64>)
        requires
            crate::pos::coord_in_range(chunk_x as int),
            crate::pos::coord_in_range(chunk_y as int),
            crate::pos::coord_in_range(chunk_z as int),
            scale_in_range(scale_milli as int),
        ensures
            r@.len() == 4096,
            forall|i: int|
                0 <= i < 4096 ==> #[trigger] r@[i] == spec_cave_sample(
                    self.seed,
                    scale_milli as int,
                    chunk_x as int,
                    chunk_y as int,
                    chunk_z as int,
                    i % 16,
                    i / 256,
                    (i / 16) % 16,
                ),
            forall|i: int| 0 <= i < 4096 ==> -1000 <= #[trigger] r@[i] <= 1000,
    {
        let mut samples: Vec<i64> = Vec::new();
        let mut y: usize = 0;
        while y < 16
            invariant
                crate::pos::coord_in_range(chunk_x as int),
                crate::pos::coord_in_range(chunk_y as int),
                crate::pos::coord_in_range(chunk_z as int),
                scale_in_range(scale_milli as int),
                y <= 16,
                samples@.len() == y * 256,
                forall|i: int|
                    0 <= i < samples@.len() ==> #[trigger] samples@[i] == spec_cave_sample(
                        self.seed,
                        scale_milli as int,
                        chunk_x as int,
                        chunk_y as int,
                        chunk_z as int,
                        i % 16,
                        i / 256,
                        (i / 16) % 16,
                    ),
                forall|i: int| 0 <= i < samples@.len() ==> -1000 <= #[trigger] samples@[i] <= 1000,
            decreases 16 - y,
        {
            let mut z: usize = 0;
            while z < 16
                invariant
                    crate::pos::coord_in_range(chunk_x as int),
                    crate::pos::coord_in_range(chunk_y as int),
                    crate::pos::coord_in_range(chunk_z as int),
                    scale_in_range(scale_milli as int),
                    y < 16,
                    z <= 16,
                    samples@.len() == y * 256 + z * 16,
                    forall|i: int|
                        0 <= i < samples@.len() ==> #[trigger] samples@[i] == spec_cave_sample(
                            self.seed,
                            scale_milli as int,
                            chunk_x as int,
                            chunk_y as int,
                            chunk_z as int,
                            i % 16,
                            i / 256,
                            (i / 16) % 16,
                        ),
                    forall|i: int|
                        0 <= i < samples@.len() ==> -1000 <= #[trigger] samples@[i] <= 1000,
                decreases 16 - z,
            {
                let mut x: usize = 0;
                while x < 16
                    invariant
                        crate::pos::coord_in_range(chunk_x as int),
                        crate::pos::coord_in_range(chunk_y as int),
                        crate::pos::coord_in_range(chunk_z as int),
                        scale_in_range(scale_milli as int),
                        y < 16,
                        z < 16,
                        x <= 16,
                        samples@.len() == y * 256 + z * 16 + x,
                        forall|i: int|
                            0 <= i < samples@.len() ==> #[trigger] samples@[i] == spec_cave_sample(
                                self.seed,
                                scale_milli as int,
                                chunk_x as int,
                                chunk_y as int,
                                chunk_z as int,
                                i % 16,
                                i / 256,
                                (i / 16) % 16,
                            ),
                        forall|i: int|
                            0 <= i < samples@.len() ==> -1000 <= #[trigger] samples@[i] <= 1000,
                    decreases 16 - x,
                {
                    let wx = chunk_x as i64 * 16 + x as i64;
                    let wy = chunk_y as i64 * 16 + y as i64;
                    let wz = chunk_z as i64 * 16 + z as i64;
                    let sx = scaled_coord_20(wx, scale_milli);
                    let sy = scaled_coord_20(wy, scale_milli);
                    let sz = scaled_coord_20(wz, scale_milli);
                    let noise = self.noise_3d(sx, sy, sz);
                    proof {
                        let i = y * 256 + z * 16 + x;
                        assert(i % 16 == x && i / 256 == y && (i / 16) % 16 == z)
                            by (nonlinear_arith)
                            requires
                                x < 16,
                                y < 16,
                                z < 16,
                                i == y * 256 + z * 16 + x,
                        ;
                    }
                    samples.push(noise);
                    x = x + 1;
                }
                z = z + 1;
            }
            y = y + 1;
        }
        samples
    }
}

/// Samples one octave of three-dimensional noise under a field tag.
fn noise_3d_tagged(seed: i64, tag: u64, x: i64, y: i64, z: i64) -> (r: i64)
    requires
        sample_in_range(x as int),
        sample_in_range(y as int),
        sample_in_range(z as int),
    ensures
        r == spec_noise_3d(seed, tag, x as int, y as int, z as int),
        -1000 <= r <= 1000,
{
    proof {
        reveal(spec_noise_3d);
    }
    let (x0, fx) = split_coord(x);
    let (y0, fy) = split_coord(y);
    let (z0, fz) = split_coord(z);
    let v000 = corner(seed, tag, x0, y0, z0);
    let v100 = corner(seed, tag, x0 + 1, y0, z0);
    let v010 = corner(seed, tag, x0, y0 + 1, z0);
    let v110 = corner(seed, tag, x0 + 1, y0 + 1, z0);
    let v001 = corner(seed, tag, x0, y0, z0 + 1);
    let v101 = corner(seed, tag, x0 + 1, y0, z0 + 1);
    let v011 = corner(seed, tag, x0, y0 + 1, z0 + 1);
    let v111 = corner(seed, tag, x0 + 1, y0 + 1, z0 + 1);
    let front = lerp(lerp(v000, v100, fx), lerp(v010, v110, fx), fy);
    let back = lerp(lerp(v001, v101, fx), lerp(v011, v111, fx), fy);
    let v = lerp(front, back, fz);
    v as i64 - 1000
}

/// Samples one octave of two-dimensional noise under a field tag.
fn noise_2d_tagged(seed: i64, tag: u64, x: i64, z: i64) -> (r: i64)
    requires
        sample_in_range(x as int),
        sample_in_range(z as int),
    ensures
        r == spec_noise_2d(seed, tag, x as int, z as int),
        -1000 <= r <= 1000,
{
    proof {
        reveal(spec_noise_2d);
    }
    let (x0, fx) = split_coord(x);
    let (z0, fz) = split_coord(z);
    let v00 = corner(seed, tag, x0, z0, 0);
    let v10 = corner(seed, tag, x0 + 1, z0, 0);
    let v01 = corner(seed, tag, x0, z0 + 1, 0);
    let v11 = corner(seed, tag, x0 + 1, z0 + 1, 0);
    let v = lerp(lerp(v00, v10, fx), lerp(v01, v11, fx), fz);
    v as i64 - 1000
}

} // verus!
