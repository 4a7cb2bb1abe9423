//! Wraparound coordinates on the square toroidal world.
use vstd::prelude::*;

use crate::fixed::floor_mod;

verus! {

/// `v` reduced into `0..m`, also for negative `v`.
pub open spec fn wrapped(v: int, m: int) -> int {
    v % m
}

/// Row-major index of the cell at `(x, y)` on a torus of side `size`.
pub open spec fn toroidal_index(x: int, y: int, size: int) -> int {
    wrapped(y, size) * size + wrapped(x, size)
}

/// Reduces a coordinate onto the torus of circumference `max`.
pub fn wrap(v: i64, max: i64) -> (r: i64)
    requires
        max > 0,
    ensures
        r == wrapped(v as int, max as int),
        0 <= r < max,
{
    floor_mod(v, max)
}

/// Index into a row-major grid of side `size` of the cell at `(x, y)`,
/// with both coordinates taken modulo `size`.
pub fn index_toroidal(x: i64, y: i64, size: i64) -> (r: usize)
    requires
        size > 0,
        size * size <= usize::MAX,
    ensures
        r == toroidal_index(x as int, y as int, size as int),
        r < size * size,
{
    let wx = wrap(x, size);
    let wy = wrap(y, size);
    proof {
        assert(wy * size + wx < size * size) by (nonlinear_arith)
            requires
                0 <= wy < size,
                0 <= wx < size,
        ;
        assert(size <= size * size) by (nonlinear_arith)
            requires
                size > 0,
        ;
        assert(0 <= wy * size) by (nonlinear_arith)
            requires
                0 <= wy,
                0 <= size,
        ;
    }
    (wy as usize) * (size as usize) + (wx as usize)
}

} // verus!
