//! Temperature and moisture of a cell, before moisture advection.
use vstd::arithmetic::div_mod::lemma_mod_add_multiples_vanish;
use vstd::prelude::*;

use crate::elevation::{
    elevation_of, fractal_terrain, get_elevation_at_position, is_sample, ELEVATION_HIGH,
    ELEVATION_LOW, MAX_OCTAVES,
};
use crate::fixed::{clamp_to_unit, clamp_unit, floor_div, UNIT};
use crate::torus::{toroidal_index, wrap, wrapped};

verus! {

/// Elevation, temperature and moisture of one cell, in fixed point.
#[derive(Clone, Copy, Debug, PartialEq, Eq, Structural)]
pub struct Climate {
    pub elevation: i64,
    pub temperature: i64,
    pub moisture: i64,
}

impl Climate {
    /// Elevation in the range the synthesizer gives, moisture in `[0, 1]`.
    pub open spec fn wf(&self) -> bool {
        &&& ELEVATION_LOW <= self.elevation <= ELEVATION_HIGH
        &&& 0 <= self.moisture <= UNIT
    }
}

/// The noise samples of one cell, each a fixed-point value in `[-1, 1]`.
pub struct FieldSamples {
    /// Terrain noise, one sample per octave, lowest frequency first.
    pub terrain: Vec<i64>,
    /// Continental-scale noise.
    pub continental: i64,
    /// Temperature noise.
    pub temperature: i64,
    /// Moisture noise.
    pub moisture: i64,
    /// The latitude band of moisture: wet at the equator, dry near the
    /// subtropics (`exp(-3l) - 0.4 * exp(-(l - 0.3)^2 / 0.02)` at latitude `l`).
    pub latitude_moisture: i64,
}

impl FieldSamples {
    /// Between one and `MAX_OCTAVES` terrain octaves; every sample in `[-1, 1]`.
    pub open spec fn wf(&self) -> bool {
        &&& 1 <= self.terrain.len() <= MAX_OCTAVES
        &&& forall|i: int| 0 <= i < self.terrain.len() ==> is_sample(#[trigger] self.terrain[i] as int)
        &&& is_sample(self.continental as int)
        &&& is_sample(self.temperature as int)
        &&& is_sample(self.moisture as int)
        &&& is_sample(self.latitude_moisture as int)
    }
}

/// The climate, before advection, of a cell of row `y` with the given samples.
pub open spec fn climate_of(s: &FieldSamples, y: int, size: int) -> Climate {
    let e = elevation_of(fractal_terrain(s.terrain@), s.continental as int);
    Climate {
        elevation: e as i64,
        temperature: temperature_of(y, size, e, s.temperature as int) as i64,
        moisture: raw_moisture_of(s.moisture as int, s.latitude_moisture as int, e) as i64,
    }
}

/// Largest world side that the fixed-point latitude can hold.
pub const MAX_WORLD_SIZE: i64 = 0xffff_ffff;

/// `r` is the integer square root of `n`, rounded down.
pub open spec fn is_floor_sqrt(r: int, n: int) -> bool {
    0 <= r && r * r <= n < (r + 1) * (r + 1)
}

/// The integer square root of `n`, rounded down.
pub open spec fn floor_sqrt(n: int) -> int {
    choose|r: int| is_floor_sqrt(r, n)
}

/// Distance of row `y` from the map's middle row, as a fraction of half the
/// map: 0 at the equator, 1 at the poles.
pub open spec fn latitude_of(y: int, size: int) -> int {
    let d = 2 * y - size;
    (if d < 0 {
        -d
    } else {
        d
    }) * UNIT / size
}

/// Elevation as a fraction of the highest elevation; 0 below zero.
pub open spec fn height_fraction(e: int) -> int {
    if e > 0 {
        e / 100
    } else {
        0
    }
}

/// Cooling by height: `15 * h^1.5` degrees for height fraction `h`.
pub open spec fn elevation_cooling(e: int) -> int {
    let h = height_fraction(e);
    15 * (h * floor_sqrt(h * UNIT) / (UNIT as int))
}

/// Temperature in degrees: `30 - 40 * latitude`, less the cooling by height,
/// plus five degrees times the temperature noise sample.
pub open spec fn temperature_of(y: int, size: int, e: int, noise: int) -> int {
    30 * UNIT - 40 * latitude_of(y, size) - elevation_cooling(e) + 5 * noise
}

/// Moisture before advection: the noise sample moved to `[0, 1]`, plus the
/// latitude band, less a quarter of the height fraction, clamped to `[0, 1]`.
pub open spec fn raw_moisture_of(noise: int, band: int, e: int) -> int {
    clamp_unit((noise + UNIT) / 2 + band - e / 400)
}

proof fn lemma_floor_sqrt_unique(r: int, s: int, n: int)
    requires
        is_floor_sqrt(r, n),
        is_floor_sqrt(s, n),
    ensures
        r == s,
{
    if r < s {
        assert((r + 1) * (r + 1) <= s * s) by (nonlinear_arith)
            requires
                0 <= r + 1 <= s,
        ;
    } else if s < r {
        assert((s + 1) * (s + 1) <= r * r) by (nonlinear_arith)
            requires
                0 <= s + 1 <= r,
        ;
    }
}

/// Integer square root, rounded down.
pub fn isqrt(n: u64) -> (r: u64)
    ensures
        r == floor_sqrt(n as int),
        is_floor_sqrt(r as int, n as int),
{
    let mut lo: u64 = 0;
    let mut hi: u64 = 0x1_0000_0000;
    assert(hi * hi > n) by (nonlinear_arith)
        requires
            hi == 0x1_0000_0000,
            n < 0x1_0000_0000_0000_0000,
    ;
    while hi - lo > 1
        invariant
            lo < hi <= 0x1_0000_0000,
            lo * lo <= n,
            n < hi * hi,
        decreases hi - lo,
    {
        let mid = lo + (hi - lo) / 2;
        assert(mid * mid < 0x1_0000_0000_0000_0000) by (nonlinear_arith)
            requires
                mid < 0x1_0000_0000,
        ;
        if mid * mid <= n {
            lo = mid;
        } else {
            hi = mid;
        }
    }
    assert(is_floor_sqrt(lo as int, n as int));
    proof {
        lemma_floor_sqrt_unique(lo as int, floor_sqrt(n as int), n as int);
    }
    lo
}

/// Latitude of row `y` (taken modulo the world side) on a world of side
/// `world_size`.
pub fn latitude(y: i64, world_size: i64) -> (r: i64)
    requires
        0 < world_size <= MAX_WORLD_SIZE,
    ensures
        r == latitude_of(wrapped(y as int, world_size as int), world_size as int),
        0 <= r <= UNIT,
{
    let row = wrap(y, world_size);
    let d = 2 * row - world_size;
    let dist = if d < 0 {
        -d
    } else {
        d
    };
    proof {
        assert(dist * UNIT <= world_size * UNIT) by (nonlinear_arith)
            requires
                0 <= dist <= world_size,
        ;
        vstd::arithmetic::div_mod::lemma_div_is_ordered(dist * UNIT, world_size * UNIT, world_size as int);
        vstd::arithmetic::div_mod::lemma_div_multiples_vanish(UNIT as int, world_size as int);
        assert(world_size * UNIT == UNIT * world_size) by (nonlinear_arith);
        assert(0 <= dist * UNIT) by (nonlinear_arith)
            requires
                0 <= dist,
        ;
        vstd::arithmetic::div_mod::lemma_div_pos_is_pos(dist * UNIT, world_size as int);
    }
    dist * UNIT / world_size
}

/// Cooling by height, `15 * h^1.5` degrees, for an elevation in range.
pub fn elevation_cooling_at(e: i64) -> (r: i64)
    requires
        e <= ELEVATION_HIGH,
    ensures
        r == elevation_cooling(e as int),
        0 <= r <= 30 * UNIT,
{
    let h: i64 = if e > 0 {
        e / 100
    } else {
        0
    };
    assert(h * UNIT <= 1_462_500 * UNIT) by (nonlinear_arith)
        requires
            0 <= h <= 1_462_500,
    ;
    assert(0 <= h * UNIT) by (nonlinear_arith)
        requires
            0 <= h,
    ;
    let root = isqrt((h * UNIT) as u64);
    proof {
        // root * root <= h * UNIT < 1_462_500 * UNIT, so root < 1_210_000
        assert(root < 1_210_000) by (nonlinear_arith)
            requires
                root * root <= h * UNIT,
                h * UNIT <= 1_462_500 * UNIT,
                0 <= root,
        ;
        assert(0 <= h * root <= 1_462_500 * 1_210_000) by (nonlinear_arith)
            requires
                0 <= h <= 1_462_500,
                0 <= root < 1_210_000,
        ;
        vstd::arithmetic::div_mod::lemma_div_is_ordered(h * root, 1_462_500int * 1_210_000int, UNIT as int);
        vstd::arithmetic::div_mod::lemma_div_pos_is_pos(h * root, UNIT as int);
    }
    let power = (h * (root as i64)) / UNIT;
    15 * power
}

/// Temperature of a cell of row `y` (taken modulo the world side) with
/// elevation `e` and temperature noise sample `noise`.
pub fn get_temperature_at_position(y: i64, world_size: i64, e: i64, noise: i64) -> (r: i64)
    requires
        0 < world_size <= MAX_WORLD_SIZE,
        e <= ELEVATION_HIGH,
        is_sample(noise as int),
    ensures
        r == temperature_of(wrapped(y as int, world_size as int), world_size as int, e as int, noise as int),
{
    let lat = latitude(y, world_size);
    let cooling = elevation_cooling_at(e);
    30 * UNIT - 40 * lat - cooling + 5 * noise
}

/// Moisture of a cell before advection, from its moisture noise sample, its
/// latitude band and its elevation.
pub fn get_moisture_at_position(noise: i64, band: i64, e: i64) -> (r: i64)
    requires
        is_sample(noise as int),
        is_sample(band as int),
        ELEVATION_LOW <= e <= ELEVATION_HIGH,
    ensures
        r == raw_moisture_of(noise as int, band as int, e as int),
        0 <= r <= UNIT,
{
    let base = (noise + UNIT) / 2;
    let drying = floor_div(e, 400);
    clamp_to_unit(base + band - drying)
}

/// Climate, before advection, of a cell of row `y` (taken modulo the world
/// side) whose noise samples are `samples`.
pub fn generate_square_at_position(samples: &FieldSamples, y: i64, world_size: i64) -> (r: Climate)
    requires
        samples.wf(),
        0 < world_size <= MAX_WORLD_SIZE,
    ensures
        r == climate_of(samples, wrapped(y as int, world_size as int), world_size as int),
        r.elevation == elevation_of(fractal_terrain(samples.terrain@), samples.continental as int),
        r.temperature == temperature_of(
            wrapped(y as int, world_size as int),
            world_size as int,
            r.elevation as int,
            samples.temperature as int,
        ),
        r.moisture == raw_moisture_of(samples.moisture as int, samples.latitude_moisture as int, r.elevation as int),
        r.wf(),
{
    let elevation = get_elevation_at_position(&samples.terrain, samples.continental);
    let temperature = get_temperature_at_position(y, world_size, elevation, samples.temperature);
    let moisture = get_moisture_at_position(samples.moisture, samples.latitude_moisture, elevation);
    Climate { elevation, temperature, moisture }
}

/// Seam continuity: the cell one world side further on, in x or in y, is
/// the same cell: it has the same index, and with the same noise samples
/// (the sampler reads the wrapped position) the same climate before advection.
pub proof fn lemma_seam_continuity(samples: &FieldSamples, x: int, y: int, size: int)
    requires
        size > 0,
    ensures
        wrapped(x + size, size) == wrapped(x, size),
        wrapped(y + size, size) == wrapped(y, size),
        toroidal_index(x + size, y, size) == toroidal_index(x, y, size),
        toroidal_index(x, y + size, size) == toroidal_index(x, y, size),
        climate_of(samples, wrapped(y + size, size), size) == climate_of(
            samples,
            wrapped(y, size),
            size,
        ),
{
    lemma_mod_add_multiples_vanish(x, size);
    lemma_mod_add_multiples_vanish(y, size);
    assert(x + size == size + x);
    assert(y + size == size + y);
}

} // verus!
