//! Elevation from fractal terrain detail and a continental-scale sample.
use vstd::prelude::*;

use vstd::arithmetic::power2::{
    lemma2_to64, lemma_pow2_pos, lemma_pow2_strictly_increases, lemma_pow2_unfold, pow2,
};

use crate::fixed::{floor_div, UNIT};

verus! {

/// Most octaves that the fixed-point sum can hold without overflow.
pub const MAX_OCTAVES: usize = 32;

/// Shift towards sea applied to every continental sample (0.075).
pub const SEA_BIAS: i64 = 75_000;

/// A noise sample: a fixed-point value in `[-1, 1]`.
pub open spec fn is_sample(v: int) -> bool {
    -UNIT <= v <= UNIT
}

/// Sum of the octave samples, octave `i` of `n` weighted `2^(n-1-i)`, which is
/// its amplitude `2^-i` scaled by `2^(n-1)`.
pub open spec fn octave_sum(s: Seq<i64>) -> int
    decreases s.len(),
{
    if s.len() == 0 {
        0
    } else {
        2 * octave_sum(s.drop_last()) + s.last()
    }
}

/// Sum of the weights of `n` octaves, `2^n - 1`.
pub open spec fn amplitude_total(n: nat) -> int
    decreases n,
{
    if n == 0 {
        0
    } else {
        2 * amplitude_total((n - 1) as nat) + 1
    }
}

/// Terrain detail: the amplitude-weighted mean of the octave samples,
/// rounded down.
pub open spec fn fractal_terrain(s: Seq<i64>) -> int {
    octave_sum(s) / amplitude_total(s.len())
}

/// How much terrain detail counts at a continental sample `c`.
pub open spec fn land_strength_of(c: int) -> int {
    if c == -UNIT {
        0
    } else if -UNIT < c <= -UNIT / 2 {
        100_000
    } else if -UNIT / 2 < c <= 0 {
        500_000
    } else if 0 < c <= UNIT / 2 {
        800_000
    } else if UNIT / 2 < c <= UNIT {
        UNIT as int
    } else {
        0
    }
}

/// Continental shape plus weighted terrain detail, in `[-1, 1]` roughly.
pub open spec fn normalized_elevation(terrain: int, c: int) -> int {
    (c - SEA_BIAS) + terrain * land_strength_of(c) / (UNIT as int)
}

/// Elevation on the absolute scale `[0, 100]`: `(normalized + 1) / 2 * 100`.
pub open spec fn elevation_of(terrain: int, c: int) -> int {
    (normalized_elevation(terrain, c) + UNIT) * 50
}

/// Lowest elevation that samples in range can give (-8.75).
pub const ELEVATION_LOW: i64 = -8_750_000;

/// Highest elevation that samples in range can give (146.25).
pub const ELEVATION_HIGH: i64 = 146_250_000;

/// Weight of terrain detail at continental sample `c`.
pub fn get_land_strength(c: i64) -> (r: i64)
    ensures
        r == land_strength_of(c as int),
        0 <= r <= UNIT,
{
    if c == -UNIT {
        0
    } else if -UNIT < c && c <= -UNIT / 2 {
        100_000
    } else if -UNIT / 2 < c && c <= 0 {
        500_000
    } else if 0 < c && c <= UNIT / 2 {
        800_000
    } else if UNIT / 2 < c && c <= UNIT {
        UNIT
    } else {
        0
    }
}

proof fn lemma_octave_sum_bounds(s: Seq<i64>)
    requires
        forall|i: int| 0 <= i < s.len() ==> is_sample(#[trigger] s[i] as int),
    ensures
        -UNIT * amplitude_total(s.len()) <= octave_sum(s) <= UNIT * amplitude_total(s.len()),
        amplitude_total(s.len()) >= s.len(),
    decreases s.len(),
{
    if s.len() > 0 {
        let p = s.drop_last();
        assert forall|i: int| 0 <= i < p.len() implies is_sample(#[trigger] p[i] as int) by {
            assert(p[i] == s[i]);
        }
        lemma_octave_sum_bounds(p);
        assert(is_sample(s[s.len() - 1] as int));
    }
}

/// Combines the terrain octave samples, highest amplitude first, into their
/// amplitude-weighted mean.
pub fn fractal_terrain_sample(octaves: &Vec<i64>) -> (r: i64)
    requires
        1 <= octaves.len() <= MAX_OCTAVES,
        forall|i: int| 0 <= i < octaves.len() ==> is_sample(#[trigger] octaves[i] as int),
    ensures
        r == fractal_terrain(octaves@),
        is_sample(r as int),
{
    let mut sum: i64 = 0;
    let mut total: i64 = 0;
    let mut i: usize = 0;
    proof {
        lemma2_to64();
    }
    while i < octaves.len()
        invariant
            i <= octaves.len() <= MAX_OCTAVES,
            forall|j: int| 0 <= j < octaves.len() ==> is_sample(#[trigger] octaves[j] as int),
            sum == octave_sum(octaves@.subrange(0, i as int)),
            total == amplitude_total(i as nat),
            total + 1 == pow2(i as nat),
            pow2(31) == 0x8000_0000,
            -UNIT * total <= sum <= UNIT * total,
        decreases octaves.len() - i,
    {
        let ghost pre = octaves@.subrange(0, i as int);
        let ghost next = octaves@.subrange(0, i as int + 1);
        assert(next.drop_last() =~= pre);
        proof {
            lemma_pow2_unfold((i + 1) as nat);
            lemma_pow2_pos(i as nat);
            if i < 31 {
                lemma_pow2_strictly_increases(i as nat, 31);
            }
            assert(is_sample(octaves[i as int] as int));
            assert(-UNIT * 0x8000_0000 <= sum <= UNIT * 0x8000_0000) by (nonlinear_arith)
                requires
                    -UNIT * total <= sum <= UNIT * total,
                    0 <= total < 0x8000_0000,
            ;
            assert(-UNIT * (2 * total + 1) <= 2 * sum + octaves[i as int] <= UNIT * (2 * total
                + 1)) by (nonlinear_arith)
                requires
                    -UNIT * total <= sum <= UNIT * total,
                    is_sample(octaves[i as int] as int),
            ;
        }
        sum = 2 * sum + octaves[i];
        total = 2 * total + 1;
        i = i + 1;
    }
    assert(octaves@.subrange(0, octaves.len() as int) =~= octaves@);
    proof {
        lemma_octave_sum_bounds(octaves@);
        lemma_mean_in_range(sum as int, total as int);
    }
    floor_div(sum, total)
}

proof fn lemma_mean_in_range(sum: int, total: int)
    requires
        total > 0,
        -UNIT * total <= sum <= UNIT * total,
    ensures
        is_sample(sum / total),
{
    vstd::arithmetic::div_mod::lemma_div_is_ordered(-UNIT * total, sum, total);
    vstd::arithmetic::div_mod::lemma_div_is_ordered(sum, UNIT * total, total);
    vstd::arithmetic::div_mod::lemma_div_multiples_vanish(-UNIT as int, total);
    vstd::arithmetic::div_mod::lemma_div_multiples_vanish(UNIT as int, total);
    assert(-UNIT * total == total * -UNIT) by (nonlinear_arith);
    assert(UNIT * total == total * UNIT) by (nonlinear_arith);
}

proof fn lemma_detail_bounds(t: int, w: int)
    requires
        is_sample(t),
        0 <= w <= UNIT,
    ensures
        -w <= t * w / (UNIT as int) <= w,
{
    assert(-w * UNIT <= t * w <= w * UNIT) by (nonlinear_arith)
        requires
            is_sample(t),
            0 <= w,
    ;
    vstd::arithmetic::div_mod::lemma_div_is_ordered(-w * UNIT, t * w, UNIT as int);
    vstd::arithmetic::div_mod::lemma_div_is_ordered(t * w, w * UNIT, UNIT as int);
    vstd::arithmetic::div_mod::lemma_div_multiples_vanish(-w, UNIT as int);
    vstd::arithmetic::div_mod::lemma_div_multiples_vanish(w, UNIT as int);
    assert(-w * UNIT == UNIT * -w) by (nonlinear_arith);
    assert(w * UNIT == UNIT * w) by (nonlinear_arith);
}

/// Samples in `[-1, 1]` give an elevation in `[ELEVATION_LOW, ELEVATION_HIGH]`.
pub proof fn lemma_elevation_range(terrain: int, c: int)
    requires
        is_sample(terrain),
        is_sample(c),
    ensures
        ELEVATION_LOW <= elevation_of(terrain, c) <= ELEVATION_HIGH,
{
    lemma_detail_bounds(terrain, land_strength_of(c));
}

/// Elevation of a cell from its terrain octave samples (highest amplitude
/// first) and its continental sample.
pub fn get_elevation_at_position(octaves: &Vec<i64>, continental: i64) -> (r: i64)
    requires
        1 <= octaves.len() <= MAX_OCTAVES,
        forall|i: int| 0 <= i < octaves.len() ==> is_sample(#[trigger] octaves[i] as int),
        is_sample(continental as int),
    ensures
        r == elevation_of(fractal_terrain(octaves@), continental as int),
        ELEVATION_LOW <= r <= ELEVATION_HIGH,
{
    let terrain = fractal_terrain_sample(octaves);
    let strength = get_land_strength(continental);
    proof {
        lemma_detail_bounds(terrain as int, strength as int);
        lemma_elevation_range(terrain as int, continental as int);
        assert(-UNIT * UNIT <= terrain * strength <= UNIT * UNIT) by (nonlinear_arith)
            requires
                is_sample(terrain as int),
                0 <= strength <= UNIT,
        ;
    }
    let detail = floor_div(terrain * strength, UNIT);
    let normalized = (continental - SEA_BIAS) + detail;
    (normalized + UNIT) * 50
}

} // verus!
