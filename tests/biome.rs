use worldgen::biome::{biome_from_climate, biome_name, Biome, MAX_ELEVATION};

const U: i64 = 1_000_000;

fn land(t: i64, m: i64) -> Biome {
    biome_from_climate(t, m, 50 * U, MAX_ELEVATION)
}

#[test]
fn ocean_below_sea_level() {
    assert_eq!(biome_from_climate(20 * U, 900_000, 47_999_999, MAX_ELEVATION), Biome::Ocean);
    assert_eq!(biome_from_climate(20 * U, 900_000, 48 * U, MAX_ELEVATION), Biome::SubtropicalForest);
}

#[test]
fn ocean_whatever_the_climate() {
    for t in [-50 * U, -10 * U, 0, 10 * U, 40 * U] {
        for m in [0, 300_000, U] {
            assert_eq!(biome_from_climate(t, m, 47 * U, MAX_ELEVATION), Biome::Ocean);
            assert_eq!(biome_from_climate(t, m, -5 * U, MAX_ELEVATION), Biome::Ocean);
        }
    }
}

#[test]
fn cold_and_high_biomes() {
    assert_eq!(biome_from_climate(-10 * U - 1, 0, 50 * U, MAX_ELEVATION), Biome::Ice);
    assert_eq!(biome_from_climate(0, 0, 75 * U + 1, MAX_ELEVATION), Biome::Snow);
    assert_eq!(biome_from_climate(0, 0, 75 * U, MAX_ELEVATION), Biome::Alpine);
    assert_eq!(biome_from_climate(2 * U, 0, 60 * U + 1, MAX_ELEVATION), Biome::Alpine);
    assert_eq!(biome_from_climate(2 * U + 1, 0, 60 * U + 1, MAX_ELEVATION), Biome::Tundra);
    assert_eq!(biome_from_climate(2 * U, 0, 60 * U, MAX_ELEVATION), Biome::Tundra);
}

#[test]
fn temperature_and_moisture_bands() {
    assert_eq!(land(-6 * U, 399_999), Biome::Tundra);
    assert_eq!(land(-6 * U, 400_000), Biome::BorealForest);
    assert_eq!(land(0, 299_999), Biome::Tundra);
    assert_eq!(land(0, 300_000), Biome::Taiga);
    assert_eq!(land(10 * U, 199_999), Biome::ColdDesert);
    assert_eq!(land(10 * U, 200_000), Biome::Grassland);
    assert_eq!(land(10 * U, 499_999), Biome::Grassland);
    assert_eq!(land(10 * U, 500_000), Biome::TemperateForest);
    assert_eq!(land(10 * U, 750_000), Biome::TemperateRainforest);
    assert_eq!(land(20 * U, 199_999), Biome::HotDesert);
    assert_eq!(land(20 * U, 200_000), Biome::Savanna);
    assert_eq!(land(20 * U, 500_000), Biome::SubtropicalForest);
    assert_eq!(land(25 * U, 199_999), Biome::HotDesert);
    assert_eq!(land(25 * U, 449_999), Biome::Savanna);
    assert_eq!(land(25 * U, 450_000), Biome::TropicalRainforest);
    assert_eq!(land(-5 * U, 0), Biome::Tundra);
    assert_eq!(land(5 * U, 0), Biome::ColdDesert);
    assert_eq!(land(18 * U, 0), Biome::HotDesert);
}

#[test]
fn thresholds_follow_max_elevation() {
    assert_eq!(biome_from_climate(20 * U, 900_000, 23 * U, 50 * U), Biome::Ocean);
    assert_eq!(biome_from_climate(20 * U, 900_000, 24 * U, 50 * U), Biome::SubtropicalForest);
    assert_eq!(biome_from_climate(0, 0, i64::MAX, i64::MAX), Biome::Snow);
}

#[test]
fn biome_labels() {
    assert_eq!(biome_name(Biome::Ocean), "Ocean");
    assert_eq!(biome_name(Biome::BorealForest), "Boreal Forest");
    assert_eq!(biome_name(Biome::TropicalRainforest), "Tropical Rainforest");
}
