use worldgen::climate::{
    elevation_cooling_at, generate_square_at_position, get_moisture_at_position,
    get_temperature_at_position, isqrt, latitude, Climate, FieldSamples,
};

const U: i64 = 1_000_000;

fn flat_samples() -> FieldSamples {
    FieldSamples {
        terrain: vec![0],
        continental: 0,
        temperature: 0,
        moisture: 0,
        latitude_moisture: 0,
    }
}

#[test]
fn integer_square_root() {
    assert_eq!(isqrt(0), 0);
    assert_eq!(isqrt(1), 1);
    assert_eq!(isqrt(15), 3);
    assert_eq!(isqrt(16), 4);
    assert_eq!(isqrt(1_000_000_000_000), 1_000_000);
    assert_eq!(isqrt(u64::MAX), 4_294_967_295);
}

#[test]
fn latitude_from_rows() {
    assert_eq!(latitude(5, 10), 0);
    assert_eq!(latitude(0, 10), U);
    assert_eq!(latitude(10, 10), U);
    assert_eq!(latitude(-1, 10), 800_000);
    assert_eq!(latitude(7, 10), 400_000);
}

#[test]
fn cooling_by_height() {
    assert_eq!(elevation_cooling_at(100 * U), 15 * U);
    assert_eq!(elevation_cooling_at(25 * U), 1_875_000);
    assert_eq!(elevation_cooling_at(0), 0);
    assert_eq!(elevation_cooling_at(-5), 0);
}

#[test]
fn temperature_formula() {
    assert_eq!(get_temperature_at_position(5, 10, 25 * U, 200_000), 29_125_000);
    assert_eq!(get_temperature_at_position(0, 10, 0, 0), -10 * U);
    assert_eq!(get_temperature_at_position(0, 10, 0, -U), -15 * U);
}

#[test]
fn moisture_formula() {
    assert_eq!(get_moisture_at_position(0, 100_000, 40 * U), 500_000);
    assert_eq!(get_moisture_at_position(-U, 0, -4_000_001), 10_001);
    assert_eq!(get_moisture_at_position(U, U, 0), U);
    assert_eq!(get_moisture_at_position(-U, -U, 0), 0);
}

#[test]
fn square_from_samples() {
    let c = generate_square_at_position(&flat_samples(), 5, 10);
    assert_eq!(
        c,
        Climate {
            elevation: 46_250_000,
            temperature: 25_282_005,
            moisture: 384_375
        }
    );
}

#[test]
fn square_continues_across_the_seam() {
    let s = FieldSamples {
        terrain: vec![300_000, -200_000, 100_000],
        continental: 400_000,
        temperature: -300_000,
        moisture: 250_000,
        latitude_moisture: 200_000,
    };
    for y in 0..10 {
        assert_eq!(
            generate_square_at_position(&s, y, 10),
            generate_square_at_position(&s, y + 10, 10)
        );
    }
    assert_eq!(
        generate_square_at_position(&s, 0, 10),
        generate_square_at_position(&s, 10, 10)
    );
}
