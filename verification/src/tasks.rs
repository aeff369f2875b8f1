//! Work for the machines of the arena: small generated programs with a
//! known expected result.

pub mod queue;
pub mod task;
