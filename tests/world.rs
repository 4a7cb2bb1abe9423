use worldgen::biome::Biome;
use worldgen::climate::{Climate, FieldSamples};
use worldgen::torus::index_toroidal;
use worldgen::world::{
    generate_chunk_data, generate_chunk_primary, generate_logical_world, generate_world,
    ChunkBuffer, Square, HALO,
};

const U: i64 = 1_000_000;

fn climate(elevation: i64, temperature: i64, moisture: i64) -> Climate {
    Climate {
        elevation,
        temperature,
        moisture,
    }
}

fn varied_world(size: usize) -> Vec<Climate> {
    (0..size * size)
        .map(|i| {
            let e = 30 * U + ((i as i64 * 7_919_003) % (60 * U));
            let t = -15 * U + ((i as i64 * 3_141_593) % (45 * U));
            let m = (i as i64 * 271_829) % (U + 1);
            climate(e, t, m)
        })
        .collect()
}

fn chunk_buffer(world: &[Climate], size: i64, chunk: usize, cx: i64, cy: i64) -> ChunkBuffer {
    let mut climates = Vec::new();
    for r in 0..chunk as i64 {
        for k in 0..(chunk + HALO) as i64 {
            let i = index_toroidal(cx * chunk as i64 + k, cy * chunk as i64 + r, size);
            climates.push(world[i]);
        }
    }
    ChunkBuffer {
        chunk_size: chunk,
        climates,
    }
}

#[test]
fn rising_row_loses_moisture_only_at_the_wrap() {
    let row = [50 * U, 60 * U, 70 * U, 80 * U];
    let mut climates = Vec::new();
    for _ in 0..4 {
        for e in row {
            climates.push(climate(e, 10 * U, 500_000));
        }
    }
    let map = generate_world(&climates, 4);
    for y in 0..4 {
        let m: Vec<i64> = (0..4).map(|x| map.squares[y * 4 + x].moisture).collect();
        assert_eq!(m, vec![500_000, 500_000, 500_000, 380_000]);
        for x in 0..3 {
            assert!(m[x + 1] <= m[x]);
        }
    }
    assert_eq!(map.squares[3].biome, Biome::Grassland);
    assert_eq!(map.squares[2].biome, Biome::TemperateForest);
}

#[test]
fn advection_takes_upwind_moisture() {
    let climates = vec![
        climate(60 * U, 10 * U, 100_000),
        climate(50 * U, 10 * U, 900_000),
        climate(70 * U, 10 * U, 300_000),
        climate(40 * U, 30 * U, 0),
    ];
    let map = generate_world(&climates, 2);
    assert_eq!(map.width, 2);
    assert_eq!(map.height, 2);
    assert_eq!(
        map.squares[0],
        Square {
            biome: Biome::TemperateRainforest,
            elevation: 60 * U,
            temperature: 10 * U,
            moisture: 860_000
        }
    );
    assert_eq!(map.squares[1].moisture, 100_000);
    assert_eq!(map.squares[1].biome, Biome::ColdDesert);
    assert_eq!(map.squares[2].moisture, 0);
    assert_eq!(map.squares[3].moisture, 300_000);
    assert_eq!(map.squares[3].biome, Biome::Ocean);
}

#[test]
fn steep_climb_dries_to_zero() {
    let climates = vec![climate(146 * U, 20 * U, U), climate(-8 * U, 20 * U, 100_000)];
    let map = generate_world(&vec![climates[0], climates[1], climates[1], climates[0]], 2);
    assert_eq!(map.squares[0].moisture, 0);
    assert_eq!(map.squares[1].moisture, U);
    assert_eq!(map.squares[3].moisture, 0);
}

#[test]
fn final_moisture_stays_in_unit_interval() {
    let map = generate_world(&varied_world(16), 16);
    assert_eq!(map.squares.len(), 256);
    for s in &map.squares {
        assert!(0 <= s.moisture && s.moisture <= U);
    }
}

#[test]
fn generation_is_deterministic() {
    let world = varied_world(12);
    let a = generate_world(&world, 12);
    let b = generate_world(&world, 12);
    assert_eq!(a.squares, b.squares);
}

#[test]
fn chunks_agree_with_the_world() {
    let size = 8usize;
    let world = varied_world(size);
    let map = generate_world(&world, size as u32);
    for chunk in [1usize, 2, 3, 4] {
        for cx in -1..3i64 {
            for cy in -1..3i64 {
                let squares = generate_chunk_data(&chunk_buffer(&world, size as i64, chunk, cx, cy));
                assert_eq!(squares.len(), chunk * chunk);
                for r in 0..chunk {
                    for k in 0..chunk {
                        let i = index_toroidal(
                            cx * chunk as i64 + k as i64,
                            cy * chunk as i64 + r as i64,
                            size as i64,
                        );
                        assert_eq!(squares[r * chunk + k], map.squares[i]);
                    }
                }
            }
        }
    }
}

#[test]
fn biome_lookup_wraps() {
    let world = varied_world(6);
    let map = generate_world(&world, 6);
    assert_eq!(map.biome_at(-1, 0), map.biome_at(5, 0));
    assert_eq!(map.biome_at(2, -6), map.squares[2].biome);
    assert_eq!(map.biome_at(7, 13), map.squares[6 + 1].biome);
}

#[test]
fn single_cell_world_from_samples() {
    let samples = vec![FieldSamples {
        terrain: vec![0],
        continental: 0,
        temperature: 0,
        moisture: 0,
        latitude_moisture: 0,
    }];
    let map = generate_logical_world(&samples, 1);
    assert_eq!(
        map.squares,
        vec![Square {
            biome: Biome::Ocean,
            elevation: 46_250_000,
            temperature: -14_717_995,
            moisture: 384_375
        }]
    );
}

fn flat() -> FieldSamples {
    FieldSamples {
        terrain: vec![0],
        continental: 0,
        temperature: 0,
        moisture: 0,
        latitude_moisture: 0,
    }
}

#[test]
fn chunk_climates_use_the_chunk_row() {
    let buffer = generate_chunk_primary(&vec![flat(), flat()], 0, 1, 10);
    assert_eq!(buffer.chunk_size, 1);
    assert_eq!(buffer.climates, vec![climate(46_250_000, -14_717_995, 384_375); 2]);
    let above = generate_chunk_primary(&vec![flat(), flat()], -1, 1, 10);
    assert_eq!(above.climates[0], climate(46_250_000, -6_717_995, 384_375));
    let squares = generate_chunk_data(&above);
    assert_eq!(squares.len(), 1);
    assert_eq!(squares[0].moisture, 384_375);
    assert_eq!(squares[0].biome, Biome::Ocean);
}
