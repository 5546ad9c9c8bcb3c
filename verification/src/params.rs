//! The configuration of a run: what is known of the two species before the
//! first step.

use vstd::prelude::*;
use crate::ratio::Ratio;

verus! {

/// Why a configuration was refused.
#[derive(Clone, Copy, Debug, PartialEq, Eq, Structural)]
pub enum ConfigError {
    /// One of the four lists does not hold exactly two entries.
    WrongArity,
    /// A carrying capacity is zero.
    ZeroCarryingCapacity,
    /// A growth rate or a competition coefficient has the denominator zero.
    ZeroDenominator,
}

/// What a configuration holds, as plain values. In each pair the first entry
/// belongs to species 1 and the second to species 2.
pub struct Model {
    /// The populations before the first step.
    pub initial_population: (u32, u32),
    /// The growth rate of each species.
    pub growth_rate: (Ratio, Ratio),
    /// The carrying capacity of each species.
    pub carrying_capacity: (u32, u32),
    /// The competition coefficients. The growth of species 1 is slowed by the
    /// second entry, that of species 2 by the first.
    pub competition_coefficient: (Ratio, Ratio),
    /// One more than the number of steps of a run.
    pub iteration_count: u32,
}

impl Model {
    /// Every division of the update rule is defined: no carrying capacity
    /// and no denominator is zero.
    pub open spec fn well_formed(&self) -> bool {
        &&& self.carrying_capacity.0 > 0
        &&& self.carrying_capacity.1 > 0
        &&& self.growth_rate.0.well_formed()
        &&& self.growth_rate.1.well_formed()
        &&& self.competition_coefficient.0.well_formed()
        &&& self.competition_coefficient.1.well_formed()
    }

    /// The configuration that four lists of two entries and an iteration
    /// count describe.
    pub open spec fn from_lists(
        initial_population: Seq<u32>,
        growth_rate: Seq<Ratio>,
        carrying_capacity: Seq<u32>,
        competition_coefficient: Seq<Ratio>,
        iteration_count: u32,
    ) -> Model {
        Model {
            initial_population: (initial_population[0], initial_population[1]),
            growth_rate: (growth_rate[0], growth_rate[1]),
            carrying_capacity: (carrying_capacity[0], carrying_capacity[1]),
            competition_coefficient: (competition_coefficient[0], competition_coefficient[1]),
            iteration_count,
        }
    }

    /// The number of steps of a run: one less than the iteration count, and
    /// none where that count is zero.
    pub open spec fn steps(&self) -> nat {
        if self.iteration_count >= 1 {
            (self.iteration_count - 1) as nat
        } else {
            0
        }
    }
}

/// The error, if any, with which four lists are refused as a configuration.
/// A wrong length is reported before a zero carrying capacity, and that
/// before a zero denominator.
pub open spec fn config_error(
    initial_population: Seq<u32>,
    growth_rate: Seq<Ratio>,
    carrying_capacity: Seq<u32>,
    competition_coefficient: Seq<Ratio>,
) -> Option<ConfigError> {
    if initial_population.len() != 2 || growth_rate.len() != 2 || carrying_capacity.len() != 2
        || competition_coefficient.len() != 2 {
        Some(ConfigError::WrongArity)
    } else if carrying_capacity[0] == 0 || carrying_capacity[1] == 0 {
        Some(ConfigError::ZeroCarryingCapacity)
    } else if growth_rate[0].denom == 0 || growth_rate[1].denom == 0
        || competition_coefficient[0].denom == 0 || competition_coefficient[1].denom == 0 {
        Some(ConfigError::ZeroDenominator)
    } else {
        None
    }
}

/// A configuration that was checked when it was made. It is never changed
/// afterwards.
pub struct SimulationParameters {
    pub(crate) initial_population: Vec<u32>,
    pub(crate) growth_rate: Vec<Ratio>,
    pub(crate) carrying_capacity: Vec<u32>,
    pub(crate) competition_coefficient: Vec<Ratio>,
    pub(crate) iteration_count: u32,
}

impl View for SimulationParameters {
    type V = Model;

    closed spec fn view(&self) -> Model {
        Model::from_lists(
            self.initial_population@,
            self.growth_rate@,
            self.carrying_capacity@,
            self.competition_coefficient@,
            self.iteration_count,
        )
    }
}

impl SimulationParameters {
    #[verifier::type_invariant]
    pub(crate) closed spec fn inv(&self) -> bool {
        &&& self.initial_population@.len() == 2
        &&& self.growth_rate@.len() == 2
        &&& self.carrying_capacity@.len() == 2
        &&& self.competition_coefficient@.len() == 2
        &&& self@.well_formed()
    }

    /// What the invariant says of the fields.
    pub(crate) proof fn lemma_fields(&self)
        requires
            self.inv(),
        ensures
            self.initial_population@.len() == 2,
            self.growth_rate@.len() == 2,
            self.carrying_capacity@.len() == 2,
            self.competition_coefficient@.len() == 2,
            self@.well_formed(),
            self@ == Model::from_lists(
                self.initial_population@,
                self.growth_rate@,
                self.carrying_capacity@,
                self.competition_coefficient@,
                self.iteration_count,
            ),
    {
    }

    /// The populations before the first step.
    pub fn initial_population(&self) -> (pair: (u32, u32))
        ensures
            pair == self@.initial_population,
    {
        proof {
            use_type_invariant(self);
        }
        (self.initial_population[0], self.initial_population[1])
    }

    /// The growth rate of each species.
    pub fn growth_rate(&self) -> (pair: (Ratio, Ratio))
        ensures
            pair == self@.growth_rate,
    {
        proof {
            use_type_invariant(self);
        }
        (self.growth_rate[0], self.growth_rate[1])
    }

    /// The carrying capacity of each species.
    pub fn carrying_capacity(&self) -> (pair: (u32, u32))
        ensures
            pair == self@.carrying_capacity,
    {
        proof {
            use_type_invariant(self);
        }
        (self.carrying_capacity[0], self.carrying_capacity[1])
    }

    /// The competition coefficients.
    pub fn competition_coefficient(&self) -> (pair: (Ratio, Ratio))
        ensures
            pair == self@.competition_coefficient,
    {
        proof {
            use_type_invariant(self);
        }
        (self.competition_coefficient[0], self.competition_coefficient[1])
    }

    /// One more than the number of steps of a run.
    pub fn iteration_count(&self) -> (count: u32)
        ensures
            count == self@.iteration_count,
    {
        self.iteration_count
    }

    /// Checks four lists and an iteration count, and makes a configuration of
    /// them where `config_error` finds no fault.
    pub fn new(
        initial_population: Vec<u32>,
        growth_rate: Vec<Ratio>,
        carrying_capacity: Vec<u32>,
        competition_coefficient: Vec<Ratio>,
        iteration_count: u32,
    ) -> (made: Result<SimulationParameters, ConfigError>)
        ensures
            match made {
                Ok(params) => {
                    &&& config_error(
                        initial_population@,
                        growth_rate@,
                        carrying_capacity@,
                        competition_coefficient@,
                    ).is_none()
                    &&& params@.well_formed()
                    &&& params@ == Model::from_lists(
                        initial_population@,
                        growth_rate@,
                        carrying_capacity@,
                        competition_coefficient@,
                        iteration_count,
                    )
                },
                Err(error) => config_error(
                    initial_population@,
                    growth_rate@,
                    carrying_capacity@,
                    competition_coefficient@,
                ) == Some(error),
            },
    {
        if initial_population.len() != 2 || growth_rate.len() != 2 || carrying_capacity.len() != 2
            || competition_coefficient.len() != 2 {
            return Err(ConfigError::WrongArity);
        }
        if carrying_capacity[0] == 0 || carrying_capacity[1] == 0 {
            return Err(ConfigError::ZeroCarryingCapacity);
        }
        if growth_rate[0].denom == 0 || growth_rate[1].denom == 0
            || competition_coefficient[0].denom == 0 || competition_coefficient[1].denom == 0 {
            return Err(ConfigError::ZeroDenominator);
        }
        Ok(
            SimulationParameters {
                initial_population,
                growth_rate,
                carrying_capacity,
                competition_coefficient,
                iteration_count,
            },
        )
    }
}

} // verus!
