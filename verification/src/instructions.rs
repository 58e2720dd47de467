//! The operations on a single task: create it, publish its split once, and pay
//! out each slot once. Each operation decides and updates the record; moving the
//! balance and notifying observers is left to the caller, who is told what to
//! move by the event handed back.

use vstd::prelude::*;
use crate::amounts::{lemma_paid_out_mark, sum_amounts};
use crate::error::TaskError;
use crate::events::{RewardClaimed, RewardDistributionSubmitted, TaskCreated};
use crate::identity::Identity;
use crate::states::{GlobalConfig, TaskConfig, TaskState};

verus! {

/// Sets up the program-wide record with its administrator.
pub fn handle_initialize(admin: Identity, bump: u8) -> (config: GlobalConfig)
    ensures
        config.admin == admin,
        config.bump == bump,
{
    GlobalConfig { admin, bump }
}

/// Creates the record of a task with `locked_amount` to be locked by `creator`.
/// The record starts without a split; the event names what is to be locked.
pub fn handle_create_task(creator: Identity, name: String, locked_amount: u64, bump: u8) -> (r: (
    TaskConfig,
    TaskCreated,
))
    ensures
        r.0@ == TaskState::create(creator, name@, locked_amount, bump),
        r.1.creator == creator,
        r.1.name@ == name@,
        r.1.locked_amount == locked_amount,
{
    let task = TaskConfig {
        creator,
        name: name.clone(),
        locked_amount,
        reward_distribution_submitted: false,
        recipients: Vec::new(),
        amounts: Vec::new(),
        claimed: Vec::new(),
        bump,
    };
    let event = TaskCreated { creator, name, locked_amount };
    assert(task@.recipients =~= Seq::<Identity>::empty());
    assert(task@.amounts =~= Seq::<u64>::empty());
    assert(task@.claimed =~= Seq::<bool>::empty());
    (task, event)
}

/// Copies a list of identities.
pub(crate) fn copy_identities(v: &Vec<Identity>) -> (r: Vec<Identity>)
    ensures
        r@ == v@,
{
    let mut out: Vec<Identity> = Vec::new();
    let mut i: usize = 0;
    while i < v.len()
        invariant
            i <= v.len(),
            out@ == v@.take(i as int),
        decreases v.len() - i,
    {
        out.push(v[i]);
        assert(out@ =~= v@.take(i + 1));
        i += 1;
    }
    assert(v@.take(i as int) =~= v@);
    out
}

/// Copies a list of amounts.
fn copy_amounts(v: &Vec<u64>) -> (r: Vec<u64>)
    ensures
        r@ == v@,
{
    let mut out: Vec<u64> = Vec::new();
    let mut i: usize = 0;
    while i < v.len()
        invariant
            i <= v.len(),
            out@ == v@.take(i as int),
        decreases v.len() - i,
    {
        out.push(v[i]);
        assert(out@ =~= v@.take(i + 1));
        i += 1;
    }
    assert(v@.take(i as int) =~= v@);
    out
}

/// A list of `n` unpaid marks.
fn unpaid_marks(n: usize) -> (r: Vec<bool>)
    ensures
        r@.len() == n,
        forall|i: int| 0 <= i < n ==> !r@[i],
{
    let mut out: Vec<bool> = Vec::new();
    let mut i: usize = 0;
    while i < n
        invariant
            i <= n,
            out@.len() == i,
            forall|j: int| 0 <= j < i ==> !out@[j],
        decreases n - i,
    {
        out.push(false);
        i += 1;
    }
    out
}

/// Publishes the split of `task`: `amounts[i]` is owed to `recipients[i]`. It is
/// accepted exactly when the state's `submit_refusal` names no error; the record
/// then holds the split with every slot unpaid, and the event repeats it. A
/// refusal leaves the record as it was. A recipient may occur more than once:
/// each occurrence is a slot of its own.
pub fn handle_submit_reward_distribution(
    task: &mut TaskConfig,
    caller: Identity,
    recipients: Vec<Identity>,
    amounts: Vec<u64>,
) -> (r: Result<RewardDistributionSubmitted, TaskError>)
    ensures
        final(task)@ == old(task)@.submit(caller, recipients@, amounts@),
        match r {
            Ok(event) => {
                &&& old(task)@.submit_refusal(caller, recipients@, amounts@) is None
                &&& event.task_name@ == old(task)@.name
                &&& event.recipients@ == recipients@
                &&& event.amounts@ == amounts@
            },
            Err(e) => old(task)@.submit_refusal(caller, recipients@, amounts@) == Some(e),
        },
{
    if !caller.same(&task.creator) {
        return Err(TaskError::Unauthorized);
    }
    if recipients.len() != amounts.len() {
        return Err(TaskError::InvalidRewardDistribution);
    }
    match sum_amounts(&amounts) {
        Some(sum) => {
            if sum != task.locked_amount {
                return Err(TaskError::InvalidRewardDistribution);
            }
        },
        None => {
            return Err(TaskError::InvalidRewardDistribution);
        },
    }
    if task.reward_distribution_submitted {
        return Err(TaskError::InvalidRewardDistribution);
    }
    let event = RewardDistributionSubmitted {
        task_name: task.name.clone(),
        recipients: copy_identities(&recipients),
        amounts: copy_amounts(&amounts),
    };
    task.claimed = unpaid_marks(recipients.len());
    task.recipients = recipients;
    task.amounts = amounts;
    task.reward_distribution_submitted = true;
    assert(task.claimed@ =~= Seq::new(task.recipients@.len(), |i: int| false));
    Ok(event)
}

/// Decides a claim of `claimer` without touching the record: the slot that the
/// claim pays, or why it is refused. A caller whose transfer can fail on its own
/// asks here first, moves the slot's amount, and records the payment with
/// `handle_claim_reward` only once the transfer is confirmed; no slot is then ever
/// marked as paid without having been paid.
pub fn next_claim(task: &TaskConfig, claimer: Identity) -> (r: Result<usize, TaskError>)
    requires
        task@.wf(),
    ensures
        match r {
            Ok(i) => {
                &&& task@.claim_refusal(claimer) is None
                &&& i == task@.claim_index(claimer)
                &&& task@.next_slot(claimer, i as int)
            },
            Err(e) => task@.claim_refusal(claimer) == Some(e),
        },
{
    if !task.reward_distribution_submitted {
        return Err(TaskError::RewardDistributionNotSubmitted);
    }
    let n = task.recipients.len();
    let mut listed = false;
    let mut i: usize = 0;
    while i < n
        invariant
            task@.wf(),
            n == task.recipients.len(),
            i <= n,
            listed <==> exists|j: int| 0 <= j < i && task@.owns_slot(claimer, j),
            forall|j: int| 0 <= j < i ==> !task@.open_slot(claimer, j),
        decreases n - i,
    {
        if task.recipients[i].same(&claimer) {
            assert(task@.owns_slot(claimer, i as int));
            if !task.claimed[i] {
                proof {
                    task@.lemma_next_slot(claimer, i as int);
                }
                return Ok(i);
            }
            listed = true;
        }
        i += 1;
    }
    if listed {
        Err(TaskError::RewardAlreadyClaimed)
    } else {
        Err(TaskError::NotEligible)
    }
}

/// Pays out one slot of `claimer`. It is accepted exactly when the state's
/// `claim_refusal` names no error. The slot paid is the first, in slot order, of
/// the claimer's slots that has not been paid out; it is marked as paid, nothing
/// else in the record changes, and the event names the slot's amount, which is to
/// leave the vault. A refusal leaves the record as it was.
pub fn handle_claim_reward(task: &mut TaskConfig, claimer: Identity) -> (r: Result<
    RewardClaimed,
    TaskError,
>)
    requires
        old(task)@.wf(),
    ensures
        final(task)@ == old(task)@.claim(claimer),
        match r {
            Ok(event) => {
                &&& old(task)@.claim_refusal(claimer) is None
                &&& event.task_name@ == old(task)@.name
                &&& event.claimer == claimer
                &&& event.amount == old(task)@.claim_amount(claimer)
                &&& final(task)@.vault_balance() == old(task)@.vault_balance() - event.amount
            },
            Err(e) => old(task)@.claim_refusal(claimer) == Some(e),
        },
{
    let i = match next_claim(task, claimer) {
        Ok(i) => i,
        Err(e) => {
            return Err(e);
        },
    };
    let amount = task.amounts[i];
    proof {
        lemma_paid_out_mark(task.amounts@, task.claimed@, i as int);
    }
    task.claimed.set(i, true);
    Ok(RewardClaimed { task_name: task.name.clone(), claimer, amount })
}

} // verus!
