//! The run: the update rule applied step after step to both species.

use vstd::prelude::*;
use crate::dynamics::{
    check_extinction, next_population, round_update, update_simulation, RawUpdate,
};
use crate::params::{config_error, ConfigError, Model, SimulationParameters};
use crate::ratio::Ratio;

verus! {

impl Model {
    /// Both populations after one step from `current`. The growth of species
    /// 1 is slowed by the second competition coefficient, that of species 2
    /// by the first.
    pub open spec fn step(&self, current: (int, int)) -> (int, int) {
        (
            next_population(
                current.0,
                current.1,
                self.growth_rate.0,
                self.carrying_capacity.0 as int,
                self.competition_coefficient.1,
            ),
            next_population(
                current.1,
                current.0,
                self.growth_rate.1,
                self.carrying_capacity.1 as int,
                self.competition_coefficient.0,
            ),
        )
    }

    /// Both populations after `t` steps.
    pub open spec fn population_at(&self, t: nat) -> (int, int)
        decreases t,
    {
        if t == 0 {
            (self.initial_population.0 as int, self.initial_population.1 as int)
        } else {
            self.step(self.population_at((t - 1) as nat))
        }
    }

    /// `species1` and `species2` are what a run records: for each step, from
    /// the first to the last, the population of each species after it.
    pub open spec fn records(&self, species1: Seq<u32>, species2: Seq<u32>) -> bool {
        &&& species1.len() == self.steps()
        &&& species2.len() == self.steps()
        &&& forall|i: int|
            0 <= i < species1.len() ==> #[trigger] species1[i] == self.population_at(
                (i + 1) as nat,
            ).0
        &&& forall|i: int|
            0 <= i < species2.len() ==> #[trigger] species2[i] == self.population_at(
                (i + 1) as nat,
            ).1
    }
}

/// What a run returns: the population of each species after each step.
#[derive(Clone, Debug)]
pub struct PopulationHistory {
    pub species1: Vec<u32>,
    pub species2: Vec<u32>,
}

/// The populations with which step `n` starts: the initial ones for the
/// first step, else the last that were recorded.
pub fn last_population(
    n: u32,
    initial: &Vec<u32>,
    population_1: &Vec<u32>,
    population_2: &Vec<u32>,
) -> (last: (u32, u32))
    requires
        n == 1 ==> initial@.len() >= 2,
        n != 1 ==> population_1@.len() > 0 && population_2@.len() > 0,
    ensures
        n == 1 ==> last == (initial@[0], initial@[1]),
        n != 1 ==> last == (population_1@.last(), population_2@.last()),
{
    if n == 1 {
        let pop1: u32 = initial[0];
        let pop2: u32 = initial[1];
        (pop1, pop2)
    } else {
        let pop1: u32 = population_1[population_1.len() - 1];
        let pop2: u32 = population_2[population_2.len() - 1];
        (pop1, pop2)
    }
}

/// Runs the model: one step less than the iteration count, and no step
/// where that count is zero.
pub fn run(params: &SimulationParameters) -> (history: PopulationHistory)
    ensures
        history.species1@.len() == params@.steps(),
        history.species2@.len() == params@.steps(),
        params@.records(history.species1@, history.species2@),
{
    proof {
        use_type_invariant(params);
        params.lemma_fields();
    }
    let ghost model: Model = params@;
    let mut population_1: Vec<u32> = Vec::new();
    let mut population_2: Vec<u32> = Vec::new();
    let mut n: u32 = 1;
    while n < params.iteration_count
        invariant
            params.initial_population@.len() == 2,
            params.growth_rate@.len() == 2,
            params.carrying_capacity@.len() == 2,
            params.competition_coefficient@.len() == 2,
            model.well_formed(),
            model == params@,
            model == Model::from_lists(
                params.initial_population@,
                params.growth_rate@,
                params.carrying_capacity@,
                params.competition_coefficient@,
                params.iteration_count,
            ),
            n == 1 || n <= params.iteration_count,
            population_1@.len() == n - 1,
            population_2@.len() == n - 1,
            forall|i: int|
                0 <= i < population_1@.len() ==> #[trigger] population_1@[i]
                    == model.population_at((i + 1) as nat).0,
            forall|i: int|
                0 <= i < population_2@.len() ==> #[trigger] population_2@[i]
                    == model.population_at((i + 1) as nat).1,
        decreases params.iteration_count - n,
    {
        let last_pop: (u32, u32) = last_population(
            n,
            &params.initial_population,
            &population_1,
            &population_2,
        );
        let pop1: u32 = last_pop.0;
        let pop2: u32 = last_pop.1;
        assert((pop1 as int, pop2 as int) == model.population_at((n - 1) as nat));
        let raw_1: RawUpdate = update_simulation(
            pop1,
            pop2,
            params.growth_rate[0],
            params.carrying_capacity[0],
            params.competition_coefficient[1],
        );
        let raw_2: RawUpdate = update_simulation(
            pop2,
            pop1,
            params.growth_rate[1],
            params.carrying_capacity[1],
            params.competition_coefficient[0],
        );
        let newpop_1: i32 = round_update(raw_1);
        let newpop_2: i32 = round_update(raw_2);
        let pos_pop_1: u32 = check_extinction(newpop_1);
        let pos_pop_2: u32 = check_extinction(newpop_2);
        assert((pos_pop_1 as int, pos_pop_2 as int) == model.population_at(n as nat));
        population_1.push(pos_pop_1);
        population_2.push(pos_pop_2);
        n = n + 1;
    }
    PopulationHistory { species1: population_1, species2: population_2 }
}

/// Checks the five parameters as `SimulationParameters::new` does and runs
/// the model on them.
pub fn run_simulation(
    initial: Vec<u32>,
    n_iter: u32,
    r: Vec<Ratio>,
    k: Vec<u32>,
    competition: Vec<Ratio>,
) -> (outcome: Result<(Vec<u32>, Vec<u32>), ConfigError>)
    ensures
        match outcome {
            Ok(populations) => {
                &&& config_error(initial@, r@, k@, competition@).is_none()
                &&& Model::from_lists(initial@, r@, k@, competition@, n_iter).records(
                    populations.0@,
                    populations.1@,
                )
            },
            Err(error) => config_error(initial@, r@, k@, competition@) == Some(error),
        },
{
    match SimulationParameters::new(initial, r, k, competition, n_iter) {
        Ok(params) => {
            let history: PopulationHistory = run(&params);
            Ok((history.species1, history.species2))
        },
        Err(error) => Err(error),
    }
}

} // verus!
