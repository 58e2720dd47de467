//! The record kept for each task, its abstract state, and the state's transitions.

use vstd::prelude::*;
use crate::amounts::{
    lemma_paid_out_bounds,
    lemma_total_nonnegative,
    lemma_total_prefix,
    paid_out,
    sum_amounts,
    total,
};
use crate::error::TaskError;
use crate::identity::Identity;

verus! {

/// The state of a task as the rules see it.
pub struct TaskState {
    /// The account that created the task; it alone may publish the split.
    pub creator: Identity,
    /// The task's name, its key among all tasks.
    pub name: Seq<char>,
    /// The amount locked in the vault at creation.
    pub locked_amount: u64,
    /// Whether the split has been published.
    pub submitted: bool,
    /// The recipients, one per slot.
    pub recipients: Seq<Identity>,
    /// The amount owed to each slot.
    pub amounts: Seq<u64>,
    /// Whether each slot has been paid out.
    pub claimed: Seq<bool>,
    /// The seed byte of the record's address.
    pub bump: u8,
}

impl TaskState {
    /// The three per-slot sequences are aligned; before the split is published
    /// they are empty, afterwards the amounts add up to exactly what was locked.
    pub open spec fn wf(self) -> bool {
        &&& self.recipients.len() == self.amounts.len()
        &&& self.claimed.len() == self.amounts.len()
        &&& if self.submitted {
            total(self.amounts) == self.locked_amount
        } else {
            self.amounts.len() == 0
        }
    }

    /// Slot `i` belongs to `who`.
    pub open spec fn owns_slot(self, who: Identity, i: int) -> bool {
        0 <= i < self.recipients.len() && self.recipients[i] == who
    }

    /// `who` occupies at least one slot.
    pub open spec fn is_recipient(self, who: Identity) -> bool {
        exists|i: int| self.owns_slot(who, i)
    }

    /// Slot `i` belongs to `who` and has not been paid out.
    pub open spec fn open_slot(self, who: Identity, i: int) -> bool {
        self.owns_slot(who, i) && i < self.claimed.len() && !self.claimed[i]
    }

    /// `who` has a slot that has not been paid out.
    pub open spec fn has_open_slot(self, who: Identity) -> bool {
        exists|i: int| self.open_slot(who, i)
    }

    /// Slot `i` is the one that the next claim of `who` pays out: the first, in
    /// slot order, of those of `who` that have not been paid out.
    pub open spec fn next_slot(self, who: Identity, i: int) -> bool {
        self.open_slot(who, i) && forall|j: int| 0 <= j < i ==> !self.open_slot(who, j)
    }

    /// The slot that the next claim of `who` pays out.
    pub open spec fn claim_index(self, who: Identity) -> int {
        choose|i: int| self.next_slot(who, i)
    }

    /// What the vault holds: the locked amount less what has been paid out.
    pub open spec fn vault_balance(self) -> int {
        self.locked_amount - paid_out(self.amounts, self.claimed)
    }

    /// The state of a task right after its creation: nothing published, no slots.
    pub open spec fn create(creator: Identity, name: Seq<char>, locked_amount: u64, bump: u8) -> Self {
        TaskState {
            creator,
            name,
            locked_amount,
            submitted: false,
            recipients: Seq::empty(),
            amounts: Seq::empty(),
            claimed: Seq::empty(),
            bump,
        }
    }

    /// Why publishing the given split is refused, if it is. The checks run in
    /// this order and the first that fails decides: the caller is the creator;
    /// the two sequences are equally long; the amounts add up to exactly the
    /// locked amount; the task has no split yet.
    pub open spec fn submit_refusal(
        self,
        caller: Identity,
        recipients: Seq<Identity>,
        amounts: Seq<u64>,
    ) -> Option<TaskError> {
        if caller != self.creator {
            Some(TaskError::Unauthorized)
        } else if recipients.len() != amounts.len() {
            Some(TaskError::InvalidRewardDistribution)
        } else if total(amounts) != self.locked_amount {
            Some(TaskError::InvalidRewardDistribution)
        } else if self.submitted {
            Some(TaskError::InvalidRewardDistribution)
        } else {
            None
        }
    }

    /// The state after an attempt to publish the given split: the split is
    /// committed with every slot unpaid when nothing refuses it, and otherwise the
    /// state is as before.
    pub open spec fn submit(
        self,
        caller: Identity,
        recipients: Seq<Identity>,
        amounts: Seq<u64>,
    ) -> Self {
        if self.submit_refusal(caller, recipients, amounts) is None {
            TaskState {
                submitted: true,
                recipients,
                amounts,
                claimed: Seq::new(recipients.len(), |i: int| false),
                ..self
            }
        } else {
            self
        }
    }

    /// Why a claim of `who` is refused, if it is: the split has not been
    /// published; `who` has no slot; every slot of `who` has been paid out.
    pub open spec fn claim_refusal(self, who: Identity) -> Option<TaskError> {
        if !self.submitted {
            Some(TaskError::RewardDistributionNotSubmitted)
        } else if !self.is_recipient(who) {
            Some(TaskError::NotEligible)
        } else if !self.has_open_slot(who) {
            Some(TaskError::RewardAlreadyClaimed)
        } else {
            None
        }
    }

    /// The amount that the next claim of `who` pays out.
    pub open spec fn claim_amount(self, who: Identity) -> u64 {
        self.amounts[self.claim_index(who)]
    }

    /// The state after a claim of `who`: the claimer's next slot is marked as
    /// paid when nothing refuses the claim, and otherwise the state is as before.
    pub open spec fn claim(self, who: Identity) -> Self {
        if self.claim_refusal(who) is None {
            TaskState { claimed: self.claimed.update(self.claim_index(who), true), ..self }
        } else {
            self
        }
    }

    /// At most one slot is the next to be paid out to `who`.
    pub proof fn lemma_next_slot(self, who: Identity, i: int)
        requires
            self.next_slot(who, i),
        ensures
            self.claim_index(who) == i,
            self.has_open_slot(who),
            self.is_recipient(who),
    {
        let k = self.claim_index(who);
        assert(self.next_slot(who, k));
        if k < i {
            assert(!self.open_slot(who, k));
        }
        if i < k {
            assert(!self.open_slot(who, i));
        }
        assert(self.open_slot(who, i));
        assert(self.owns_slot(who, i));
    }

    /// Whoever has an unpaid slot has a first one, at or before any of them.
    pub proof fn lemma_first_open_slot(self, who: Identity, i: int)
        requires
            self.open_slot(who, i),
        ensures
            self.next_slot(who, self.claim_index(who)),
            self.claim_index(who) <= i,
        decreases i,
    {
        if exists|j: int| 0 <= j < i && self.open_slot(who, j) {
            let j = choose|j: int| 0 <= j < i && self.open_slot(who, j);
            self.lemma_first_open_slot(who, j);
        } else {
            assert(self.next_slot(who, i));
            self.lemma_next_slot(who, i);
        }
    }

    /// An accepted claim pays a slot of the claimer that was unpaid.
    pub proof fn lemma_claim_slot(self, who: Identity)
        requires
            self.claim_refusal(who) is None,
        ensures
            self.next_slot(who, self.claim_index(who)),
    {
        let i = choose|i: int| self.open_slot(who, i);
        self.lemma_first_open_slot(who, i);
    }
}

/// The record of one task.
#[derive(Debug)]
pub struct TaskConfig {
    pub creator: Identity,
    pub name: String,
    pub locked_amount: u64,
    pub reward_distribution_submitted: bool,
    pub recipients: Vec<Identity>,
    pub amounts: Vec<u64>,
    pub claimed: Vec<bool>,
    pub bump: u8,
}

impl View for TaskConfig {
    type V = TaskState;

    open spec fn view(&self) -> TaskState {
        TaskState {
            creator: self.creator,
            name: self.name@,
            locked_amount: self.locked_amount,
            submitted: self.reward_distribution_submitted,
            recipients: self.recipients@,
            amounts: self.amounts@,
            claimed: self.claimed@,
            bump: self.bump,
        }
    }
}

impl TaskConfig {
    /// Bytes reserved for a stored record: names up to 50 bytes, up to 100 slots.
    pub const SPACE: usize = 8 + 32 + 4 + 50 + 8 + 1 + 4 + (32 * 100) + 4 + (8 * 100) + 4 + (1
        * 100) + 1;

    /// Tells whether the record is well formed.
    pub fn is_well_formed(&self) -> (r: bool)
        ensures
            r == self@.wf(),
    {
        if self.recipients.len() != self.amounts.len() || self.claimed.len() != self.amounts.len() {
            return false;
        }
        if self.reward_distribution_submitted {
            match sum_amounts(&self.amounts) {
                Some(sum) => sum == self.locked_amount,
                None => false,
            }
        } else {
            self.amounts.len() == 0
        }
    }

    /// Computes what the vault holds.
    pub fn balance(&self) -> (b: u64)
        requires
            self@.wf(),
        ensures
            b == self@.vault_balance(),
    {
        let mut paid: u64 = 0;
        let mut i: usize = 0;
        proof {
            lemma_paid_out_bounds(self.amounts@, self.claimed@);
            lemma_total_nonnegative(self.amounts@);
        }
        if !self.reward_distribution_submitted {
            return self.locked_amount;
        }
        while i < self.amounts.len()
            invariant
                self@.wf(),
                self.reward_distribution_submitted,
                i <= self.amounts.len(),
                paid == paid_out(self.amounts@.take(i as int), self.claimed@.take(i as int)),
            decreases self.amounts.len() - i,
        {
            proof {
                let a = self.amounts@.take(i + 1);
                let c = self.claimed@.take(i + 1);
                assert(a.drop_last() =~= self.amounts@.take(i as int));
                assert(c.drop_last() =~= self.claimed@.take(i as int));
                lemma_paid_out_bounds(a, c);
                lemma_total_prefix(self.amounts@, i + 1);
            }
            if self.claimed[i] {
                paid = paid + self.amounts[i];
            }
            i += 1;
        }
        proof {
            assert(self.amounts@.take(i as int) =~= self.amounts@);
            assert(self.claimed@.take(i as int) =~= self.claimed@);
        }
        self.locked_amount - paid
    }
}

/// The program-wide record: who administers it.
#[derive(Clone, Copy, Debug)]
pub struct GlobalConfig {
    pub admin: Identity,
    pub bump: u8,
}

impl GlobalConfig {
    /// Bytes reserved for the stored record.
    pub const SPACE: usize = 8 + 32 + 1;
}

} // verus!
