//! Notifications that the operations hand back for observers.

use vstd::prelude::*;
use crate::identity::Identity;

verus! {

/// A task was created and its amount is to be locked in the task's vault.
#[derive(Debug)]
pub struct TaskCreated {
    pub creator: Identity,
    pub name: String,
    pub locked_amount: u64,
}

/// The split of a task's locked amount was published.
#[derive(Debug)]
pub struct RewardDistributionSubmitted {
    pub task_name: String,
    pub recipients: Vec<Identity>,
    pub amounts: Vec<u64>,
}

/// One slot was marked as paid: `amount` is to move from the task's vault to `claimer`.
#[derive(Debug)]
pub struct RewardClaimed {
    pub task_name: String,
    pub claimer: Identity,
    pub amount: u64,
}

} // verus!
