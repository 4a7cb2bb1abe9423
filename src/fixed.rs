//! Fixed-point arithmetic shared by every stage of generation.
//!
//! A real quantity `q` is held as the integer `round(q * UNIT)`, so noise
//! samples lie in `[-UNIT, UNIT]` and moisture in `[0, UNIT]`.
use vstd::arithmetic::div_mod::{lemma_fundamental_div_mod, lemma_fundamental_div_mod_converse};
use vstd::prelude::*;

verus! {

/// The integer that stands for the real number 1.
pub const UNIT: i64 = 1_000_000;

/// `v` limited to the unit interval `[0, UNIT]`.
pub open spec fn clamp_unit(v: int) -> int {
    if v < 0 {
        0
    } else if v > UNIT {
        UNIT as int
    } else {
        v
    }
}

/// Limits a fixed-point value to the unit interval.
pub fn clamp_to_unit(v: i64) -> (r: i64)
    ensures
        r == clamp_unit(v as int),
        0 <= r <= UNIT,
{
    if v < 0 {
        0
    } else if v > UNIT {
        UNIT
    } else {
        v
    }
}

/// Division rounding towards negative infinity.
pub fn floor_div(a: i64, b: i64) -> (q: i64)
    requires
        b > 0,
    ensures
        q == a as int / b as int,
{
    if a >= 0 {
        a / b
    } else {
        let n: i64 = -(a + 1);
        let k: i64 = n / b;
        let p: i64 = n % b;
        proof {
            lemma_fundamental_div_mod(n as int, b as int);
            assert(a == (-k - 1) * b + (b - 1 - p)) by (nonlinear_arith)
                requires
                    n == b * k + p,
                    a == -(n + 1),
            ;
            lemma_fundamental_div_mod_converse(a as int, b as int, -k - 1, b - 1 - p);
        }
        -k - 1
    }
}

/// Remainder that is never negative: `a` reduced into `0..b`.
pub fn floor_mod(a: i64, b: i64) -> (r: i64)
    requires
        b > 0,
    ensures
        r == a as int % b as int,
        0 <= r < b,
{
    if a >= 0 {
        a % b
    } else {
        let n: i64 = -(a + 1);
        let k: i64 = n / b;
        let p: i64 = n % b;
        proof {
            lemma_fundamental_div_mod(n as int, b as int);
            assert(a == (-k - 1) * b + (b - 1 - p)) by (nonlinear_arith)
                requires
                    n == b * k + p,
                    a == -(n + 1),
            ;
            lemma_fundamental_div_mod_converse(a as int, b as int, -k - 1, b - 1 - p);
        }
        b - 1 - p
    }
}

} // verus!
