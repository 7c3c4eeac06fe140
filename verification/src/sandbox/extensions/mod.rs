//! The parts of the engine beside the store.

pub mod auth_extension;
pub mod balance_laws;
pub mod changes;
pub mod coins;
pub mod time_extension;
pub mod transaction_control;
