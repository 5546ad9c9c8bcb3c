//! What holds of every run.

use vstd::prelude::*;
use crate::dynamics::{next_population, rounded_update, update_denominator, update_numerator};
use crate::params::Model;
use crate::ratio::Ratio;
use crate::rounding::{lemma_equal_fractions_round_alike, lemma_round_keeps_sign};

verus! {

/// The update rule's denominator is positive where both fractions are well
/// formed and the carrying capacity is not zero.
pub proof fn lemma_denominator_positive(r: Ratio, k: int, c: Ratio)
    requires
        r.well_formed(),
        c.well_formed(),
        k > 0,
    ensures
        update_denominator(r, k, c) > 0,
{
    assert(r.denom * k * c.denom > 0) by (nonlinear_arith)
        requires
            r.denom > 0,
            k > 0,
            c.denom > 0,
    ;
}

/// The update rule's value depends on a growth rate and on a competition
/// coefficient only through the numbers that they stand for: fractions of
/// equal value give the same population.
pub proof fn lemma_update_depends_on_values(
    p: int,
    q: int,
    r1: Ratio,
    r2: Ratio,
    k: int,
    c1: Ratio,
    c2: Ratio,
)
    requires
        r1.well_formed(),
        r2.well_formed(),
        c1.well_formed(),
        c2.well_formed(),
        k > 0,
        r1.numer * r2.denom == r2.numer * r1.denom,
        c1.numer * c2.denom == c2.numer * c1.denom,
    ensures
        update_numerator(p, q, r1, k, c1) * update_denominator(r2, k, c2) == update_numerator(
            p,
            q,
            r2,
            k,
            c2,
        ) * update_denominator(r1, k, c1),
        rounded_update(p, q, r1, k, c1) == rounded_update(p, q, r2, k, c2),
        next_population(p, q, r1, k, c1) == next_population(p, q, r2, k, c2),
{
    let d1: int = update_denominator(r1, k, c1);
    let d2: int = update_denominator(r2, k, c2);
    let n1: int = update_numerator(p, q, r1, k, c1);
    let n2: int = update_numerator(p, q, r2, k, c2);
    lemma_denominator_positive(r1, k, c1);
    lemma_denominator_positive(r2, k, c2);
    let t1: int = k * c1.denom - p * c1.denom - c1.numer * q;
    let t2: int = k * c2.denom - p * c2.denom - c2.numer * q;
    let u1: int = c2.denom * t1;
    let u2: int = c1.denom * t2;
    assert(u1 == u2) by (nonlinear_arith)
        requires
            u1 == c2.denom * (k * c1.denom - p * c1.denom - c1.numer * q),
            u2 == c1.denom * (k * c2.denom - p * c2.denom - c2.numer * q),
            c1.numer * c2.denom == c2.numer * c1.denom,
    ;
    let x1: int = r1.numer * r2.denom;
    let x2: int = r2.numer * r1.denom;
    let w: int = p * k;
    assert((r1.numer * p * t1) * d2 == x1 * w * u1) by (nonlinear_arith)
        requires
            d2 == r2.denom * k * c2.denom,
            x1 == r1.numer * r2.denom,
            w == p * k,
            u1 == c2.denom * t1,
    ;
    assert((r2.numer * p * t2) * d1 == x2 * w * u2) by (nonlinear_arith)
        requires
            d1 == r1.denom * k * c1.denom,
            x2 == r2.numer * r1.denom,
            w == p * k,
            u2 == c1.denom * t2,
    ;
    assert(n1 * d2 == n2 * d1) by (nonlinear_arith)
        requires
            n1 == p * d1 + r1.numer * p * t1,
            n2 == p * d2 + r2.numer * p * t2,
            (r1.numer * p * t1) * d2 == (r2.numer * p * t2) * d1,
    ;
    lemma_equal_fractions_round_alike(n1, d1, n2, d2);
}

/// Without a competitor the update rule is the logistic step
/// `p + r * p * (1 - p / k)`, whatever the competition coefficient: the
/// value, as a fraction, equals that step over the denominator `r.denom * k`.
pub proof fn lemma_alone_is_logistic(p: int, r: Ratio, k: int, c: Ratio)
    ensures
        update_numerator(p, 0, r, k, c) * (r.denom * k) == (p * (r.denom * k) + r.numer * p * (k
            - p)) * update_denominator(r, k, c),
{
    let b: int = r.denom * k;
    let e: int = c.denom as int;
    let s: int = r.numer * p * (k - p);
    assert(update_denominator(r, k, c) == b * e);
    assert(r.numer * p * (k * e - p * e - c.numer * 0) == s * e) by (nonlinear_arith)
        requires
            s == r.numer * p * (k - p),
    ;
    assert((p * (b * e) + s * e) * b == (p * b + s) * (b * e)) by (nonlinear_arith);
}

/// A population after a step is never negative, and never above the largest
/// `i32`.
pub proof fn lemma_population_in_range(m: Model, t: nat)
    requires
        t >= 1,
    ensures
        0 <= m.population_at(t).0 <= i32::MAX,
        0 <= m.population_at(t).1 <= i32::MAX,
{
}

/// No entry of a record is negative, and none is above the largest `i32`.
pub proof fn lemma_recorded_population_in_range(
    m: Model,
    species1: Seq<u32>,
    species2: Seq<u32>,
    i: int,
)
    requires
        m.records(species1, species2),
        0 <= i < m.steps(),
    ensures
        0 <= species1[i] <= i32::MAX,
        0 <= species2[i] <= i32::MAX,
{
    lemma_population_in_range(m, (i + 1) as nat);
}

/// A run is determined by its configuration: two records of the same
/// configuration are equal.
pub proof fn lemma_run_is_determined(
    m: Model,
    first: (Seq<u32>, Seq<u32>),
    second: (Seq<u32>, Seq<u32>),
)
    requires
        m.records(first.0, first.1),
        m.records(second.0, second.1),
    ensures
        first == second,
{
    assert(first.0 =~= second.0);
    assert(first.1 =~= second.1);
}

/// Where the update rule gives a species a negative value, its population
/// becomes zero.
pub proof fn lemma_negative_update_is_extinction(p: int, q: int, r: Ratio, k: int, c: Ratio)
    requires
        r.well_formed(),
        c.well_formed(),
        k > 0,
        update_numerator(p, q, r, k, c) < 0,
    ensures
        next_population(p, q, r, k, c) == 0,
{
    lemma_denominator_positive(r, k, c);
    lemma_round_keeps_sign(update_numerator(p, q, r, k, c), update_denominator(r, k, c));
}

/// Where the update rule gives species 1 a negative value at step `i + 1`,
/// the run records zero for it, and the next step starts from zero.
pub proof fn lemma_extinction_of_species_1(
    m: Model,
    species1: Seq<u32>,
    species2: Seq<u32>,
    i: int,
)
    requires
        m.well_formed(),
        m.records(species1, species2),
        0 <= i < m.steps(),
        update_numerator(
            m.population_at(i as nat).0,
            m.population_at(i as nat).1,
            m.growth_rate.0,
            m.carrying_capacity.0 as int,
            m.competition_coefficient.1,
        ) < 0,
    ensures
        species1[i] == 0,
        m.population_at((i + 2) as nat) == m.step((0, species2[i] as int)),
{
    lemma_negative_update_is_extinction(
        m.population_at(i as nat).0,
        m.population_at(i as nat).1,
        m.growth_rate.0,
        m.carrying_capacity.0 as int,
        m.competition_coefficient.1,
    );
    assert(m.population_at((i + 1) as nat) == m.step(m.population_at(i as nat)));
    assert(m.population_at((i + 2) as nat) == m.step(m.population_at((i + 1) as nat)));
}

/// Where the update rule gives species 2 a negative value at step `i + 1`,
/// the run records zero for it, and the next step starts from zero.
pub proof fn lemma_extinction_of_species_2(
    m: Model,
    species1: Seq<u32>,
    species2: Seq<u32>,
    i: int,
)
    requires
        m.well_formed(),
        m.records(species1, species2),
        0 <= i < m.steps(),
        update_numerator(
            m.population_at(i as nat).1,
            m.population_at(i as nat).0,
            m.growth_rate.1,
            m.carrying_capacity.1 as int,
            m.competition_coefficient.0,
        ) < 0,
    ensures
        species2[i] == 0,
        m.population_at((i + 2) as nat) == m.step((species1[i] as int, 0)),
{
    lemma_negative_update_is_extinction(
        m.population_at(i as nat).1,
        m.population_at(i as nat).0,
        m.growth_rate.1,
        m.carrying_capacity.1 as int,
        m.competition_coefficient.0,
    );
    assert(m.population_at((i + 1) as nat) == m.step(m.population_at(i as nat)));
    assert(m.population_at((i + 2) as nat) == m.step(m.population_at((i + 1) as nat)));
}

/// Each entry of a record comes from the populations before it by the update
/// rule, in which species 1 takes the second competition coefficient and
/// species 2 the first. Before the first entry stand the initial populations.
pub proof fn lemma_coefficients_cross(m: Model, species1: Seq<u32>, species2: Seq<u32>, i: int)
    requires
        m.records(species1, species2),
        0 <= i < m.steps(),
    ensures
        ({
            let before: (int, int) = if i == 0 {
                (m.initial_population.0 as int, m.initial_population.1 as int)
            } else {
                (species1[i - 1] as int, species2[i - 1] as int)
            };
            &&& species1[i] == next_population(
                before.0,
                before.1,
                m.growth_rate.0,
                m.carrying_capacity.0 as int,
                m.competition_coefficient.1,
            )
            &&& species2[i] == next_population(
                before.1,
                before.0,
                m.growth_rate.1,
                m.carrying_capacity.1 as int,
                m.competition_coefficient.0,
            )
        }),
{
    assert(m.population_at((i + 1) as nat) == m.step(m.population_at(i as nat)));
    if i > 0 {
        assert(species1[i - 1] == m.population_at(((i - 1) + 1) as nat).0);
        assert(species2[i - 1] == m.population_at(((i - 1) + 1) as nat).1);
    }
}

/// With an iteration count of zero or one, a run records nothing.
pub proof fn lemma_no_step(m: Model, species1: Seq<u32>, species2: Seq<u32>)
    requires
        m.records(species1, species2),
        m.iteration_count <= 1,
    ensures
        species1 == Seq::<u32>::empty(),
        species2 == Seq::<u32>::empty(),
{
    assert(species1 =~= Seq::<u32>::empty());
    assert(species2 =~= Seq::<u32>::empty());
}

/// With an iteration count of two, a run records one entry for each
/// species, which the update rule gives from the initial populations.
pub proof fn lemma_single_step(m: Model, species1: Seq<u32>, species2: Seq<u32>)
    requires
        m.records(species1, species2),
        m.iteration_count == 2,
    ensures
        species1.len() == 1,
        species2.len() == 1,
        species1[0] == next_population(
            m.initial_population.0 as int,
            m.initial_population.1 as int,
            m.growth_rate.0,
            m.carrying_capacity.0 as int,
            m.competition_coefficient.1,
        ),
        species2[0] == next_population(
            m.initial_population.1 as int,
            m.initial_population.0 as int,
            m.growth_rate.1,
            m.carrying_capacity.1 as int,
            m.competition_coefficient.0,
        ),
{
    lemma_coefficients_cross(m, species1, species2, 0);
}

} // verus!
