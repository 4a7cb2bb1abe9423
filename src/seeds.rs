//! Seeds of the independent noise fields of one generation run.
use vstd::prelude::*;

verus! {

/// The four noise fields that a generation run samples.
#[derive(Clone, Copy, Debug, PartialEq, Eq, Structural)]
pub enum NoiseField {
    Terrain,
    Continental,
    Temperature,
    Moisture,
}

/// How far each field's seed lies from the run's base seed.
pub open spec fn seed_offset(field: NoiseField) -> int {
    match field {
        NoiseField::Terrain => 0,
        NoiseField::Continental => 1,
        NoiseField::Temperature => 2,
        NoiseField::Moisture => 3,
    }
}

/// Seed of one noise field: the base seed plus the field's offset, wrapping
/// at `u32::MAX`.
pub fn field_seed(seed: u32, field: NoiseField) -> (r: u32)
    ensures
        r == (seed + seed_offset(field)) % 0x1_0000_0000,
{
    let offset: u32 = match field {
        NoiseField::Terrain => 0,
        NoiseField::Continental => 1,
        NoiseField::Temperature => 2,
        NoiseField::Moisture => 3,
    };
    seed.wrapping_add(offset)
}

/// Different fields of one run get different seeds.
pub proof fn lemma_field_seeds_distinct(seed: u32, a: NoiseField, b: NoiseField)
    requires
        a != b,
    ensures
        (seed + seed_offset(a)) % 0x1_0000_0000 != (seed + seed_offset(b)) % 0x1_0000_0000,
{
}

} // verus!
