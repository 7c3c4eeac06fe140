//! The faces of the engine: the clock, transactions, packages.

pub mod clock;
pub mod package;
pub mod transaction;
