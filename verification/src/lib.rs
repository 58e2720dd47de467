//! Escrow and distribution of a locked balance: a creator locks an amount under
//! a named task, publishes once how it is split among recipients, and each
//! recipient slot is paid out exactly once.
//!
//! `states` holds the record of a task and its abstract state with the state's
//! transitions; `instructions` the operations on one record; `task` the registry
//! of tasks by name; `laws` what holds of every task. `squad` and `utils` hold
//! the simpler groups whose members each receive one unit of a token.

pub mod amounts;
pub mod error;
pub mod events;
pub mod identity;
pub mod instructions;
pub mod laws;
pub mod squad;
pub mod states;
pub mod task;
pub mod utils;
