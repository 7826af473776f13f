//! Rate functions of infectiousness for agent-based epidemic models: how
//! infectious an agent is as a function of the time since infection, its
//! cumulative rate, and the inverse of that cumulative rate, over exact
//! rational numbers.

pub mod gamma_rate;
pub mod rate_fn;
pub mod rational;

pub use gamma_rate::GammaRate;
pub use rate_fn::{InfectiousnessRateFn, RateFnError};
pub use rational::Rational;
