//! A discrete-time Lotka-Volterra competition model for two species.
//!
//! Populations are whole numbers. Growth rates and competition coefficients
//! are exact fractions, so every step of the recurrence is computed without
//! rounding error before it is rounded once to the nearest whole number.

pub mod dynamics;
pub mod laws;
pub mod params;
pub mod ratio;
pub mod rounding;
pub mod simulation;
