//! The climate-driven biome table.
use vstd::prelude::*;

use crate::fixed::UNIT;

verus! {

/// Highest elevation of the absolute scale, as a fixed-point value (100).
pub const MAX_ELEVATION: i64 = 100_000_000;

/// Tag of the terrain type of one cell.
#[derive(Clone, Copy, Debug, PartialEq, Eq, Structural)]
pub enum Biome {
    Ocean,
    Ice,
    Snow,
    Alpine,
    Tundra,
    BorealForest,
    Taiga,
    ColdDesert,
    Grassland,
    TemperateForest,
    TemperateRainforest,
    HotDesert,
    Savanna,
    SubtropicalForest,
    TropicalRainforest,
}

/// Below this fraction of the highest elevation (0.48) every cell is sea.
pub open spec fn below_sea_level(elevation: int, max_elevation: int) -> bool {
    100 * elevation < 48 * max_elevation
}

/// `n` tenths of a unit, written exactly in fixed point.
pub open spec fn tenths(n: int) -> int {
    n * (UNIT / 10)
}

/// The biome of a cell, given its temperature (degrees), moisture (fraction)
/// and elevation, all in fixed point. The first rule that applies wins.
pub open spec fn classify(t: int, m: int, e: int, max_elevation: int) -> Biome {
    if below_sea_level(e, max_elevation) {
        Biome::Ocean
    } else if t < -10 * UNIT {
        Biome::Ice
    } else if 4 * e > 3 * max_elevation && t <= 0 {
        Biome::Snow
    } else if 5 * e > 3 * max_elevation && t <= 2 * UNIT {
        Biome::Alpine
    } else if t < -5 * UNIT {
        if m < tenths(4) {
            Biome::Tundra
        } else {
            Biome::BorealForest
        }
    } else if t < 5 * UNIT {
        if m < tenths(3) {
            Biome::Tundra
        } else {
            Biome::Taiga
        }
    } else if t < 18 * UNIT {
        if m < tenths(2) {
            Biome::ColdDesert
        } else if m < tenths(5) {
            Biome::Grassland
        } else if m < 3 * UNIT / 4 {
            Biome::TemperateForest
        } else {
            Biome::TemperateRainforest
        }
    } else if t < 25 * UNIT {
        if m < tenths(2) {
            Biome::HotDesert
        } else if m < tenths(5) {
            Biome::Savanna
        } else {
            Biome::SubtropicalForest
        }
    } else {
        if m < tenths(2) {
            Biome::HotDesert
        } else if m < 45 * UNIT / 100 {
            Biome::Savanna
        } else {
            Biome::TropicalRainforest
        }
    }
}

/// Classifies a cell by the decision table of `classify`.
pub fn biome_from_climate(temp_c: i64, moisture: i64, elevation: i64, max_elevation: i64) -> (r:
    Biome)
    ensures
        r == classify(temp_c as int, moisture as int, elevation as int, max_elevation as int),
{
    let e = elevation as i128;
    let max = max_elevation as i128;
    if 100 * e < 48 * max {
        return Biome::Ocean;
    }
    if temp_c < -10 * UNIT {
        return Biome::Ice;
    }
    if 4 * e > 3 * max && temp_c <= 0 {
        return Biome::Snow;
    }
    if 5 * e > 3 * max && temp_c <= 2 * UNIT {
        return Biome::Alpine;
    }
    if temp_c < -5 * UNIT {
        if moisture < 400_000 {
            Biome::Tundra
        } else {
            Biome::BorealForest
        }
    } else if temp_c < 5 * UNIT {
        if moisture < 300_000 {
            Biome::Tundra
        } else {
            Biome::Taiga
        }
    } else if temp_c < 18 * UNIT {
        if moisture < 200_000 {
            Biome::ColdDesert
        } else if moisture < 500_000 {
            Biome::Grassland
        } else if moisture < 750_000 {
            Biome::TemperateForest
        } else {
            Biome::TemperateRainforest
        }
    } else if temp_c < 25 * UNIT {
        if moisture < 200_000 {
            Biome::HotDesert
        } else if moisture < 500_000 {
            Biome::Savanna
        } else {
            Biome::SubtropicalForest
        }
    } else {
        if moisture < 200_000 {
            Biome::HotDesert
        } else if moisture < 450_000 {
            Biome::Savanna
        } else {
            Biome::TropicalRainforest
        }
    }
}

/// A cell is Ocean exactly when it lies below sea level: the classifier
/// gives one biome for every triple, and land never comes out as sea.
pub proof fn lemma_ocean_iff_below_sea_level(t: int, m: int, e: int, max_elevation: int)
    ensures
        (classify(t, m, e, max_elevation) == Biome::Ocean) == below_sea_level(e, max_elevation),
{
}

/// Display name of a biome.
pub fn biome_name(b: Biome) -> (r: &'static str)
    ensures
        r@ == biome_label(b),
{
    match b {
        Biome::Ocean => "Ocean",
        Biome::Ice => "Ice",
        Biome::Snow => "Snow",
        Biome::Alpine => "Alpine",
        Biome::Tundra => "Tundra",
        Biome::BorealForest => "Boreal Forest",
        Biome::Taiga => "Taiga",
        Biome::ColdDesert => "Cold Desert",
        Biome::Grassland => "Grassland",
        Biome::TemperateForest => "Temperate Forest",
        Biome::TemperateRainforest => "Temperate Rainforest",
        Biome::HotDesert => "Hot Desert",
        Biome::Savanna => "Savanna",
        Biome::SubtropicalForest => "Subtropical Forest",
        Biome::TropicalRainforest => "Tropical Rainforest",
    }
}

/// The label shown for each biome.
pub open spec fn biome_label(b: Biome) -> Seq<char> {
    match b {
        Biome::Ocean => "Ocean"@,
        Biome::Ice => "Ice"@,
        Biome::Snow => "Snow"@,
        Biome::Alpine => "Alpine"@,
        Biome::Tundra => "Tundra"@,
        Biome::BorealForest => "Boreal Forest"@,
        Biome::Taiga => "Taiga"@,
        Biome::ColdDesert => "Cold Desert"@,
        Biome::Grassland => "Grassland"@,
        Biome::TemperateForest => "Temperate Forest"@,
        Biome::TemperateRainforest => "Temperate Rainforest"@,
        Biome::HotDesert => "Hot Desert"@,
        Biome::Savanna => "Savanna"@,
        Biome::SubtropicalForest => "Subtropical Forest"@,
        Biome::TropicalRainforest => "Tropical Rainforest"@,
    }
}

} // verus!
