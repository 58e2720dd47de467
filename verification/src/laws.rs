//! What holds of every task, whatever sequence of operations it went through.

use vstd::prelude::*;
use crate::amounts::{lemma_paid_out_bounds, lemma_paid_out_mark, lemma_paid_out_none, total};
use crate::error::TaskError;
use crate::identity::Identity;
use crate::states::TaskState;

verus! {

/// A task starts well formed, with nothing published and the whole locked
/// amount in its vault.
pub proof fn law_created_task(creator: Identity, name: Seq<char>, locked_amount: u64, bump: u8)
    ensures
        TaskState::create(creator, name, locked_amount, bump).wf(),
        !TaskState::create(creator, name, locked_amount, bump).submitted,
        TaskState::create(creator, name, locked_amount, bump).vault_balance() == locked_amount,
{
}

/// Conservation: once the split of a well-formed task is published, its amounts
/// add up to exactly the locked amount, one amount and one paid mark per recipient.
pub proof fn law_conservation(task: TaskState)
    requires
        task.wf(),
        task.submitted,
    ensures
        total(task.amounts) == task.locked_amount,
        task.recipients.len() == task.amounts.len(),
        task.claimed.len() == task.amounts.len(),
{
}

/// Conservation is kept by publishing a split, accepted or refused: the state
/// stays well formed, and creator, name and locked amount never change.
pub proof fn law_submit_keeps_conservation(
    task: TaskState,
    caller: Identity,
    recipients: Seq<Identity>,
    amounts: Seq<u64>,
)
    requires
        task.wf(),
    ensures
        task.submit(caller, recipients, amounts).wf(),
        task.submit(caller, recipients, amounts).locked_amount == task.locked_amount,
        task.submit(caller, recipients, amounts).creator == task.creator,
        task.submit(caller, recipients, amounts).name == task.name,
        task.submit_refusal(caller, recipients, amounts) is None ==> {
            &&& task.submit(caller, recipients, amounts).submitted
            &&& total(amounts) == task.locked_amount
        },
{
}

/// Conservation is kept by a claim, accepted or refused: the state stays well
/// formed, and nothing but the paid marks changes.
pub proof fn law_claim_keeps_conservation(task: TaskState, who: Identity)
    requires
        task.wf(),
    ensures
        task.claim(who).wf(),
        task.claim(who).locked_amount == task.locked_amount,
        task.claim(who).creator == task.creator,
        task.claim(who).name == task.name,
        task.claim(who).submitted == task.submitted,
        task.claim(who).recipients == task.recipients,
        task.claim(who).amounts == task.amounts,
{
    if task.claim_refusal(who) is None {
        task.lemma_claim_slot(who);
    }
}

/// The vault of a well-formed task holds the locked amount less what was paid
/// out, which is never negative and never more than was locked.
pub proof fn law_vault_bounds(task: TaskState)
    requires
        task.wf(),
    ensures
        0 <= task.vault_balance() <= task.locked_amount,
        !task.submitted ==> task.vault_balance() == task.locked_amount,
{
    lemma_paid_out_bounds(task.amounts, task.claimed);
}

/// Publishing a split moves nothing: the vault still holds all that was locked.
pub proof fn law_submit_keeps_vault(
    task: TaskState,
    caller: Identity,
    recipients: Seq<Identity>,
    amounts: Seq<u64>,
)
    requires
        task.wf(),
    ensures
        task.submit(caller, recipients, amounts).vault_balance() == task.vault_balance(),
{
    if task.submit_refusal(caller, recipients, amounts) is None {
        let post = task.submit(caller, recipients, amounts);
        lemma_paid_out_none(post.amounts, post.claimed);
        lemma_paid_out_none(task.amounts, task.claimed);
    }
}

/// An accepted claim takes exactly the paid slot's amount out of the vault, and
/// that slot was the claimer's and unpaid; a refused claim takes nothing.
pub proof fn law_claim_drains_vault(task: TaskState, who: Identity)
    requires
        task.wf(),
    ensures
        task.claim_refusal(who) is None ==> {
            &&& task.open_slot(who, task.claim_index(who))
            &&& task.claim(who).vault_balance() == task.vault_balance() - task.claim_amount(who)
        },
        task.claim_refusal(who) is Some ==> task.claim(who) == task,
{
    if task.claim_refusal(who) is None {
        task.lemma_claim_slot(who);
        lemma_paid_out_mark(task.amounts, task.claimed, task.claim_index(who));
    }
}

/// `who` has an unpaid slot other than slot `i`.
pub open spec fn has_other_open_slot(task: TaskState, who: Identity, i: int) -> bool {
    exists|j: int| j != i && task.open_slot(who, j)
}

/// No double pay: once a claim has paid a slot, no claim of anyone pays that slot
/// again. Unless the claimer had another unpaid slot, which a second claim then
/// pays, the second claim is refused as already claimed and leaves the state,
/// and so the vault, unchanged.
pub proof fn law_no_double_pay(task: TaskState, who: Identity)
    requires
        task.wf(),
        task.claim_refusal(who) is None,
    ensures
        forall|w: Identity| !task.claim(who).next_slot(w, task.claim_index(who)),
        task.claim(who).claim_refusal(who) == if has_other_open_slot(
            task,
            who,
            task.claim_index(who),
        ) {
            None
        } else {
            Some(TaskError::RewardAlreadyClaimed)
        },
        !has_other_open_slot(task, who, task.claim_index(who)) ==> {
            &&& task.claim(who).claim(who) == task.claim(who)
            &&& task.claim(who).claim(who).vault_balance() == task.claim(who).vault_balance()
        },
{
    task.lemma_claim_slot(who);
    let i = task.claim_index(who);
    let mid = task.claim(who);
    assert(mid.claimed[i]);
    assert(mid.owns_slot(who, i));
    if has_other_open_slot(task, who, i) {
        let j = choose|j: int| j != i && task.open_slot(who, j);
        assert(mid.open_slot(who, j));
    } else {
        assert forall|j: int| !mid.open_slot(who, j) by {
            if j != i {
                assert(!task.open_slot(who, j));
            }
        }
    }
}

/// Slots of one recipient are paid in slot order: when a claim is accepted right
/// after another of the same claimer, it pays a later slot.
pub proof fn law_claims_in_slot_order(task: TaskState, who: Identity)
    requires
        task.wf(),
        task.claim_refusal(who) is None,
        task.claim(who).claim_refusal(who) is None,
    ensures
        task.claim_index(who) < task.claim(who).claim_index(who),
        task.open_slot(who, task.claim(who).claim_index(who)),
{
    task.lemma_claim_slot(who);
    let i = task.claim_index(who);
    let mid = task.claim(who);
    mid.lemma_claim_slot(who);
    let k = mid.claim_index(who);
    assert(mid.open_slot(who, k));
    assert(task.open_slot(who, k));
    if k < i {
        assert(!task.open_slot(who, k));
    }
}

/// Ordering: before the split is published every claim is refused as not yet
/// submitted, whoever makes it, and the state stays as it was.
pub proof fn law_no_claim_before_split(task: TaskState, who: Identity)
    requires
        !task.submitted,
    ensures
        task.claim_refusal(who) == Some(TaskError::RewardDistributionNotSubmitted),
        task.claim(who) == task,
{
}

/// Authorization: a split published by anyone but the creator is refused as
/// unauthorized, whatever it holds, and the state stays as it was.
pub proof fn law_only_creator_submits(
    task: TaskState,
    caller: Identity,
    recipients: Seq<Identity>,
    amounts: Seq<u64>,
)
    requires
        caller != task.creator,
    ensures
        task.submit_refusal(caller, recipients, amounts) == Some(TaskError::Unauthorized),
        task.submit(caller, recipients, amounts) == task,
{
}

/// A task takes a split once: publishing on a task that has one is refused,
/// whoever tries and whatever is proposed, and recipients, amounts and paid marks
/// stay as they were.
pub proof fn law_split_is_final(
    task: TaskState,
    caller: Identity,
    recipients: Seq<Identity>,
    amounts: Seq<u64>,
)
    requires
        task.submitted,
    ensures
        task.submit_refusal(caller, recipients, amounts) is Some,
        task.submit(caller, recipients, amounts) == task,
        task.submit(caller, recipients, amounts).recipients == task.recipients,
        task.submit(caller, recipients, amounts).amounts == task.amounts,
        task.submit(caller, recipients, amounts).claimed == task.claimed,
{
}

/// A paid mark is never taken back, and a claim sets at most one: that of the
/// claimer's next slot.
pub proof fn law_marks_only_grow(task: TaskState, who: Identity, i: int)
    requires
        task.wf(),
        0 <= i < task.claimed.len(),
    ensures
        task.claim(who).claimed.len() == task.claimed.len(),
        task.claimed[i] ==> task.claim(who).claimed[i],
        task.claim(who).claimed[i] && !task.claimed[i] ==> i == task.claim_index(who)
            && task.recipients[i] == who,
{
    if task.claim_refusal(who) is None {
        task.lemma_claim_slot(who);
    }
}

/// One operation on an existing task, accepted or refused, takes `pre` to `post`.
pub open spec fn step(pre: TaskState, post: TaskState) -> bool {
    ||| exists|caller: Identity, recipients: Seq<Identity>, amounts: Seq<u64>|
        post == pre.submit(caller, recipients, amounts)
    ||| exists|who: Identity| post == pre.claim(who)
}

/// One operation takes the `k`-th of the states to the next.
pub open spec fn step_at(states: Seq<TaskState>, k: int) -> bool {
    step(states[k], states[k + 1])
}

/// The states that a task went through, from its creation on, one operation apart.
pub open spec fn history(states: Seq<TaskState>) -> bool {
    &&& states.len() > 0
    &&& states[0] == TaskState::create(
        states[0].creator,
        states[0].name,
        states[0].locked_amount,
        states[0].bump,
    )
    &&& forall|k: int| 0 <= k < states.len() - 1 ==> #[trigger] step_at(states, k)
}

/// In every state that a task ever reaches it is well formed, its creator, name
/// and locked amount are those it was created with, its vault holds between
/// nothing and the locked amount, and once the split is published the amounts
/// add up to exactly the locked amount.
pub proof fn law_invariants_along_history(states: Seq<TaskState>, k: int)
    requires
        history(states),
        0 <= k < states.len(),
    ensures
        states[k].wf(),
        states[k].creator == states[0].creator,
        states[k].name == states[0].name,
        states[k].locked_amount == states[0].locked_amount,
        0 <= states[k].vault_balance() <= states[k].locked_amount,
        states[k].submitted ==> total(states[k].amounts) == states[k].locked_amount,
    decreases k,
{
    if k > 0 {
        law_invariants_along_history(states, k - 1);
        let pre = states[k - 1];
        let post = states[k];
        assert(step_at(states, k - 1));
        if exists|who: Identity| post == pre.claim(who) {
            let who = choose|who: Identity| post == pre.claim(who);
            law_claim_keeps_conservation(pre, who);
        } else {
            let (caller, recipients, amounts) = choose|
                caller: Identity,
                recipients: Seq<Identity>,
                amounts: Seq<u64>,
            | post == pre.submit(caller, recipients, amounts);
            law_submit_keeps_conservation(pre, caller, recipients, amounts);
        }
    }
    law_vault_bounds(states[k]);
}

/// Once published, a split stays: in every later state the recipients and
/// amounts are the same, every slot that was paid is still paid, and the vault
/// holds no more than before.
pub proof fn law_split_and_marks_persist(states: Seq<TaskState>, j: int, k: int)
    requires
        history(states),
        0 <= j <= k < states.len(),
        states[j].submitted,
    ensures
        states[k].submitted,
        states[k].recipients == states[j].recipients,
        states[k].amounts == states[j].amounts,
        states[k].claimed.len() == states[j].claimed.len(),
        forall|i: int|
            0 <= i < states[j].claimed.len() && states[j].claimed[i] ==> states[k].claimed[i],
        states[k].vault_balance() <= states[j].vault_balance(),
    decreases k - j,
{
    if j < k {
        law_split_and_marks_persist(states, j, k - 1);
        law_invariants_along_history(states, k - 1);
        let pre = states[k - 1];
        let post = states[k];
        assert(step_at(states, k - 1));
        if exists|who: Identity| post == pre.claim(who) {
            let who = choose|who: Identity| post == pre.claim(who);
            law_claim_keeps_conservation(pre, who);
            law_claim_drains_vault(pre, who);
            lemma_paid_out_bounds(pre.amounts, pre.claimed);
            assert forall|i: int|
                0 <= i < pre.claimed.len() && pre.claimed[i] implies post.claimed[i] by {
                law_marks_only_grow(pre, who, i);
            }
        } else {
            let (caller, recipients, amounts) = choose|
                caller: Identity,
                recipients: Seq<Identity>,
                amounts: Seq<u64>,
            | post == pre.submit(caller, recipients, amounts);
            law_split_is_final(pre, caller, recipients, amounts);
        }
    }
}

} // verus!
