//! Rounding an exact fraction to a whole number.

use vstd::prelude::*;
use vstd::arithmetic::div_mod::{
    lemma_div_is_ordered, lemma_div_multiples_vanish, lemma_div_pos_is_pos,
    lemma_fundamental_div_mod, lemma_fundamental_div_mod_converse, lemma_mod_bound,
};

verus! {

/// The whole number nearest to `n / d`, for a positive `d`. A fraction that
/// lies exactly halfway between two whole numbers goes to the one farther
/// from zero.
pub open spec fn round_half_away(n: int, d: int) -> int
    recommends
        d > 0,
{
    if n >= 0 {
        (2 * n + d) / (2 * d)
    } else {
        -((d - 2 * n) / (2 * d))
    }
}

/// `v` brought into the range of `i32`.
pub open spec fn saturate_i32(v: int) -> int {
    if v < i32::MIN {
        i32::MIN as int
    } else if v > i32::MAX {
        i32::MAX as int
    } else {
        v
    }
}

/// Rounding a non-negative fraction whose quotient and remainder are known:
/// the quotient, and one more where the remainder is at least half of `d`.
pub proof fn lemma_round_from_quotient(n: int, d: int, q: int, r: int)
    requires
        d > 0,
        0 <= r < d,
        q >= 0,
        n == q * d + r,
    ensures
        round_half_away(n, d) == if 2 * r >= d { q + 1 } else { q },
{
    assert(n >= 0) by (nonlinear_arith)
        requires
            d > 0,
            0 <= r,
            q >= 0,
            n == q * d + r,
    ;
    if 2 * r >= d {
        assert(2 * n + d == (q + 1) * (2 * d) + (2 * r - d)) by (nonlinear_arith)
            requires
                n == q * d + r,
        ;
        lemma_fundamental_div_mod_converse(2 * n + d, 2 * d, q + 1, 2 * r - d);
    } else {
        assert(2 * n + d == q * (2 * d) + (2 * r + d)) by (nonlinear_arith)
            requires
                n == q * d + r,
        ;
        lemma_fundamental_div_mod_converse(2 * n + d, 2 * d, q, 2 * r + d);
    }
}

/// `round_half_away(n, d)` is the whole number nearest to `n / d`: twice
/// the distance between `n` and `m * d` is at most `d`. Where it is exactly
/// `d`, so that two whole numbers are equally near, `m` is the one farther
/// from zero.
pub proof fn lemma_round_is_nearest(n: int, d: int)
    requires
        d > 0,
    ensures
        n >= 0 ==> -d <= 2 * (n - round_half_away(n, d) * d) < d,
        n < 0 ==> -d < 2 * (n - round_half_away(n, d) * d) <= d,
{
    let x: int = if n >= 0 { 2 * n + d } else { d - 2 * n };
    let q: int = x / (2 * d);
    let r: int = x % (2 * d);
    lemma_fundamental_div_mod(x, 2 * d);
    lemma_mod_bound(x, 2 * d);
    assert((2 * d) * q == 2 * (q * d)) by (nonlinear_arith);
    if n < 0 {
        assert((-q) * d == -(q * d)) by (nonlinear_arith);
    }
}

/// A fraction rounds to a whole number of its own sign.
pub proof fn lemma_round_keeps_sign(n: int, d: int)
    requires
        d > 0,
    ensures
        n >= 0 ==> round_half_away(n, d) >= 0,
        n <= 0 ==> round_half_away(n, d) <= 0,
{
    if n >= 0 {
        lemma_div_pos_is_pos(2 * n + d, 2 * d);
    }
    if n <= 0 {
        lemma_div_pos_is_pos(d - 2 * n, 2 * d);
        if n == 0 {
            lemma_round_from_quotient(0, d, 0, 0);
        }
    }
}

/// Only one whole number is nearest to `n / d` in the sense of
/// `lemma_round_is_nearest`.
pub proof fn lemma_nearest_is_unique(n: int, d: int, m: int)
    requires
        d > 0,
        n >= 0 ==> -d <= 2 * (n - m * d) < d,
        n < 0 ==> -d < 2 * (n - m * d) <= d,
    ensures
        m == round_half_away(n, d),
{
    let w: int = round_half_away(n, d);
    lemma_round_is_nearest(n, d);
    assert(m == w) by (nonlinear_arith)
        requires
            d > 0,
            -2 * d < 2 * (n - m * d) - 2 * (n - w * d) < 2 * d,
    ;
}

/// Two fractions of the same value round to the same whole number.
pub proof fn lemma_equal_fractions_round_alike(n1: int, d1: int, n2: int, d2: int)
    requires
        d1 > 0,
        d2 > 0,
        n1 * d2 == n2 * d1,
    ensures
        round_half_away(n1, d1) == round_half_away(n2, d2),
{
    let m: int = round_half_away(n1, d1);
    lemma_round_is_nearest(n1, d1);
    let e1: int = 2 * (n1 - m * d1);
    let e2: int = 2 * (n2 - m * d2);
    assert(e1 * d2 == e2 * d1) by (nonlinear_arith)
        requires
            e1 == 2 * (n1 - m * d1),
            e2 == 2 * (n2 - m * d2),
            n1 * d2 == n2 * d1,
    ;
    assert((n1 >= 0) == (n2 >= 0)) by (nonlinear_arith)
        requires
            d1 > 0,
            d2 > 0,
            n1 * d2 == n2 * d1,
    ;
    assert(e1 < d1 ==> e2 < d2) by (nonlinear_arith)
        requires
            d1 > 0,
            d2 > 0,
            e1 * d2 == e2 * d1,
    ;
    assert(e1 <= d1 ==> e2 <= d2) by (nonlinear_arith)
        requires
            d1 > 0,
            d2 > 0,
            e1 * d2 == e2 * d1,
    ;
    assert(-d1 < e1 ==> -d2 < e2) by (nonlinear_arith)
        requires
            d1 > 0,
            d2 > 0,
            e1 * d2 == e2 * d1,
    ;
    assert(-d1 <= e1 ==> -d2 <= e2) by (nonlinear_arith)
        requires
            d1 > 0,
            d2 > 0,
            e1 * d2 == e2 * d1,
    ;
    lemma_nearest_is_unique(n2, d2, m);
}

/// The bound on the divisor of `round_product_capped`: two to the power 96.
pub open spec fn divisor_limit() -> int {
    0x1_0000_0000_0000_0000_0000_0000
}

/// Rounds the fraction `p * f / d` to the nearest whole number, ties upward,
/// and returns the smaller of that number and `cap`. The product `p * f` may
/// exceed `u128`; it is never formed.
pub fn round_product_capped(p: u32, f: u128, d: u128, cap: u64) -> (m: u64)
    requires
        0 < d <= divisor_limit(),
    ensures
        m == if round_half_away(p * f, d as int) <= cap {
            round_half_away(p * f, d as int)
        } else {
            cap as int
        },
{
    if p == 0 {
        proof {
            assert(p * f == 0) by (nonlinear_arith)
                requires
                    p == 0,
            ;
            lemma_round_from_quotient(0, d as int, 0, 0);
        }
        return 0;
    }
    let fq: u128 = f / d;
    let fr: u128 = f % d;
    proof {
        lemma_fundamental_div_mod(f as int, d as int);
    }
    if fq >= cap as u128 {
        proof {
            let n: int = p * f;
            assert(n >= cap * d) by (nonlinear_arith)
                requires
                    n == p * f,
                    p >= 1,
                    f == d * fq + fr,
                    fq >= cap,
                    d > 0,
                    fr >= 0,
            ;
            lemma_fundamental_div_mod(n, d as int);
            lemma_mod_bound(n, d as int);
            lemma_div_is_ordered(cap * d, n, d as int);
            lemma_div_multiples_vanish(cap as int, d as int);
            assert(cap * d == d * cap) by (nonlinear_arith);
            assert(n == (n / (d as int)) * d + n % (d as int)) by (nonlinear_arith)
                requires
                    n == d * (n / (d as int)) + n % (d as int),
            ;
            lemma_round_from_quotient(n, d as int, n / (d as int), n % (d as int));
        }
        return cap;
    }
    assert(p * fr <= u128::MAX && p * fq <= 0xffff_ffff_ffff_ffff_ffff_ffff) by (nonlinear_arith)
        requires
            p <= 0xffff_ffff,
            fr < d,
            d <= 0x1_0000_0000_0000_0000_0000_0000,
            fq < cap,
            cap <= 0xffff_ffff_ffff_ffff,
    ;
    let t: u128 = (p as u128) * fr;
    let tq: u128 = t / d;
    let tr: u128 = t % d;
    proof {
        lemma_fundamental_div_mod(t as int, d as int);
        assert(d * tq < d * p) by (nonlinear_arith)
            requires
                t == d * tq + tr,
                t == p * fr,
                fr < d,
                tr >= 0,
                p >= 1,
        ;
        assert(tq < p) by (nonlinear_arith)
            requires
                d * tq < d * p,
                d > 0,
        ;
    }
    let whole: u128 = (p as u128) * fq + tq;
    proof {
        assert(p * f == whole * d + tr) by (nonlinear_arith)
            requires
                f == d * fq + fr,
                t == d * tq + tr,
                t == p * fr,
                whole == p * fq + tq,
        ;
        lemma_round_from_quotient(p * f, d as int, whole as int, tr as int);
    }
    let nearest: u128 = if tr >= d - tr {
        whole + 1
    } else {
        whole
    };
    if nearest >= cap as u128 {
        cap
    } else {
        nearest as u64
    }
}

} // verus!
