//! The ways in which an operation on a task is refused.

use vstd::prelude::*;

verus! {

/// Why an operation on a task was refused. Every refusal leaves the task as it was.
#[derive(Clone, Copy, Debug, PartialEq, Eq, Structural)]
pub enum TaskError {
    /// The proposed split has mismatched lengths, does not add up to the locked
    /// amount, or the task already has a split.
    InvalidRewardDistribution,
    /// No task is registered under the given name.
    TaskNotFound,
    /// Someone other than the task's creator tried to publish the split.
    Unauthorized,
    /// Every slot of the caller has been paid out already.
    RewardAlreadyClaimed,
    /// The caller is not among the recipients.
    NotEligible,
    /// A claim was made before the split was published.
    RewardDistributionNotSubmitted,
}

impl TaskError {
    /// The text shown to a caller for each refusal.
    pub open spec fn text(self) -> Seq<char> {
        match self {
            TaskError::InvalidRewardDistribution =>
                "Invalid reward distribution: sum of amounts doesn't match locked amount"@,
            TaskError::TaskNotFound => "Task not found"@,
            TaskError::Unauthorized =>
                "Unauthorized: only task creator can submit reward distribution"@,
            TaskError::RewardAlreadyClaimed => "Reward already claimed"@,
            TaskError::NotEligible => "Not eligible for reward"@,
            TaskError::RewardDistributionNotSubmitted => "Reward distribution not submitted"@,
        }
    }

    /// Returns the message of this refusal.
    pub fn message(&self) -> (s: &'static str)
        ensures
            s@ == self.text(),
    {
        match self {
            TaskError::InvalidRewardDistribution =>
                "Invalid reward distribution: sum of amounts doesn't match locked amount",
            TaskError::TaskNotFound => "Task not found",
            TaskError::Unauthorized =>
                "Unauthorized: only task creator can submit reward distribution",
            TaskError::RewardAlreadyClaimed => "Reward already claimed",
            TaskError::NotEligible => "Not eligible for reward",
            TaskError::RewardDistributionNotSubmitted => "Reward distribution not submitted",
        }
    }
}

} // verus!
