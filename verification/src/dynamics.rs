//! One step of the competition model for one species.
//!
//! With `p` the species' own population, `q` the other's, `r` the growth
//! rate, `k` the carrying capacity and `c` the competition coefficient, the
//! next population is
//!
//! ```text
//! p + r * p * (1 - p / k - c * q / k)
//! ```
//!
//! rounded to the nearest whole number and never below zero. The update
//! rule gives the value itself, as an exact fraction; rounding it and
//! flooring it at zero are steps of their own.

use vstd::prelude::*;
use crate::ratio::Ratio;
use crate::rounding::{
    divisor_limit, lemma_round_from_quotient, lemma_round_keeps_sign, round_half_away,
    round_product_capped, saturate_i32,
};

verus! {

/// The denominator over which the update rule is an exact fraction:
/// `r.denom * k * c.denom`.
pub open spec fn update_denominator(r: Ratio, k: int, c: Ratio) -> int {
    r.denom * k * c.denom
}

/// The numerator of `1 + r * (1 - p / k - c * q / k)`, the factor by which a
/// population changes in one step, over `update_denominator(r, k, c)`.
pub open spec fn growth_numerator(p: int, q: int, r: Ratio, k: int, c: Ratio) -> int {
    update_denominator(r, k, c) + r.numer * (k * c.denom - p * c.denom - c.numer * q)
}

/// The numerator of `p + r * p * (1 - p / k - c * q / k)` over
/// `update_denominator(r, k, c)`. The bracket is
/// `(k * c.denom - p * c.denom - c.numer * q) / (k * c.denom)`.
pub open spec fn update_numerator(p: int, q: int, r: Ratio, k: int, c: Ratio) -> int {
    p * update_denominator(r, k, c) + r.numer * p * (k * c.denom - p * c.denom - c.numer * q)
}

/// The update rule's value rounded to the nearest whole number, ties away
/// from zero, and brought into the range of `i32`.
pub open spec fn rounded_update(p: int, q: int, r: Ratio, k: int, c: Ratio) -> int {
    saturate_i32(round_half_away(update_numerator(p, q, r, k, c), update_denominator(r, k, c)))
}

/// A population that would be negative is extinct: zero.
pub open spec fn extinction_floor(v: int) -> int {
    if v < 0 {
        0
    } else {
        v
    }
}

/// The population of a species after one step.
pub open spec fn next_population(p: int, q: int, r: Ratio, k: int, c: Ratio) -> int {
    extinction_floor(rounded_update(p, q, r, k, c))
}

/// The value of the update rule before it is rounded: the exact fraction
/// `factor * numer / denom`. The numerator is held as two factors, since
/// their product may be too large for a machine integer.
#[derive(Clone, Copy, Debug, PartialEq, Eq, Structural)]
pub struct RawUpdate {
    pub factor: u32,
    pub numer: i128,
    pub denom: u128,
}

impl RawUpdate {
    /// The denominator is positive and at most `divisor_limit()`, and the
    /// second factor of the numerator has a negative in `i128`.
    pub open spec fn well_formed(&self) -> bool {
        &&& 0 < self.denom <= divisor_limit()
        &&& self.numer > i128::MIN
    }

    /// The numerator of the fraction.
    pub open spec fn numerator(&self) -> int {
        self.factor * self.numer
    }
}

/// Zero for a negative `pop`, else `pop` itself.
pub fn check_extinction(pop: i32) -> (pos_pop: u32)
    ensures
        pos_pop == extinction_floor(pop as int),
{
    if pop < 0 {
        0
    } else {
        pop as u32
    }
}

/// The update rule for one species: `pop1` is its own population, `pop2` the
/// other's. The result is the exact value `pop1 + r * pop1 * (1 - pop1 / k -
/// compet * pop2 / k)`, neither rounded nor floored: `pop1` times the growth
/// factor.
pub fn update_simulation(pop1: u32, pop2: u32, r: Ratio, k: u32, compet: Ratio) -> (raw: RawUpdate)
    requires
        r.well_formed(),
        compet.well_formed(),
        k > 0,
    ensures
        raw.well_formed(),
        raw.factor == pop1,
        raw.numer == growth_numerator(pop1 as int, pop2 as int, r, k as int, compet),
        raw.denom == update_denominator(r, k as int, compet),
        raw.numerator() == update_numerator(pop1 as int, pop2 as int, r, k as int, compet),
{
    let ghost numer: int = update_numerator(pop1 as int, pop2 as int, r, k as int, compet);
    let ghost denom: int = update_denominator(r, k as int, compet);
    let rn: i128 = r.numer as i128;
    let rd: i128 = r.denom as i128;
    let cn: i128 = compet.numer as i128;
    let cd: i128 = compet.denom as i128;
    let p: i128 = pop1 as i128;
    let q: i128 = pop2 as i128;
    assert(0 < k * cd <= 0xffff_ffff_0000_0000 && 0 <= p * cd <= 0xffff_ffff_0000_0000
        && -0x8000_0000_0000_0000 <= cn * q <= 0x8000_0000_0000_0000) by (nonlinear_arith)
        requires
            0 < k <= 0xffff_ffff,
            0 < cd <= 0xffff_ffff,
            0 <= p <= 0xffff_ffff,
            0 <= q <= 0xffff_ffff,
            -0x8000_0000 <= cn <= 0x7fff_ffff,
    ;
    let a: i128 = (k as i128) * cd;
    let m: i128 = a - p * cd - cn * q;
    assert(0 < rd * a <= 0xffff_ffff_0000_0000_0000_0000
        && -0x1_0000_0000_0000_0000_0000_0000 <= rn * m <= 0x1_0000_0000_0000_0000_0000_0000)
        by (nonlinear_arith)
        requires
            0 < rd <= 0xffff_ffff,
            0 < a <= 0xffff_ffff_0000_0000,
            -0x8000_0000 <= rn <= 0x7fff_ffff,
            -0x2_0000_0000_0000_0000 <= m <= 0x2_0000_0000_0000_0000,
    ;
    let d: i128 = rd * a;
    let f: i128 = d + rn * m;
    proof {
        assert(denom == d && numer == p * f) by (nonlinear_arith)
            requires
                denom == rd * k * cd,
                numer == p * denom + rn * p * (k * cd - p * cd - cn * q),
                a == k * cd,
                m == a - p * cd - cn * q,
                d == rd * a,
                f == d + rn * m,
        ;
    }
    RawUpdate { factor: pop1, numer: f, denom: d as u128 }
}

/// Rounds the value of the update rule to the nearest whole number, ties
/// away from zero, and brings it into the range of `i32`.
pub fn round_update(raw: RawUpdate) -> (rounded: i32)
    requires
        raw.well_formed(),
    ensures
        rounded == saturate_i32(round_half_away(raw.numerator(), raw.denom as int)),
{
    let ghost numer: int = raw.numerator();
    let ghost denom: int = raw.denom as int;
    let ghost p: int = raw.factor as int;
    let f: i128 = raw.numer;
    proof {
        lemma_round_keeps_sign(numer, denom);
    }
    if f >= 0 {
        let nearest: u64 = round_product_capped(raw.factor, f as u128, raw.denom, 0x7fff_ffff);
        proof {
            assert(numer >= 0) by (nonlinear_arith)
                requires
                    numer == p * f,
                    p >= 0,
                    f >= 0,
            ;
        }
        nearest as i32
    } else {
        let g: i128 = -f;
        let nearest: u64 = round_product_capped(raw.factor, g as u128, raw.denom, 0x8000_0000);
        proof {
            assert(numer == -(p * g) && p * g >= 0) by (nonlinear_arith)
                requires
                    numer == p * f,
                    g == -f,
                    p >= 0,
                    g > 0,
            ;
            lemma_round_keeps_sign(p * g, denom);
            if p * g == 0 {
                lemma_round_from_quotient(0, denom, 0, 0);
            }
        }
        if nearest == 0x8000_0000 {
            i32::MIN
        } else {
            -(nearest as i32)
        }
    }
}

} // verus!
