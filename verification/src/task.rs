//! The registry of tasks, keyed by name, and the operations addressed by name.

use vstd::prelude::*;
use crate::error::TaskError;
use crate::events::{RewardClaimed, RewardDistributionSubmitted, TaskCreated};
use crate::identity::Identity;
use crate::instructions::{
    handle_claim_reward,
    handle_create_task,
    handle_initialize,
    handle_submit_reward_distribution,
};
use crate::laws::{law_claim_keeps_conservation, law_submit_keeps_conservation};
use crate::states::{GlobalConfig, TaskConfig, TaskState};

verus! {

/// All tasks, at most one per name.
#[derive(Debug)]
pub struct TaskRegistry {
    pub tasks: Vec<TaskConfig>,
}

impl View for TaskRegistry {
    type V = Map<Seq<char>, TaskState>;

    /// The registry as a mapping from names to the states of the tasks.
    open spec fn view(&self) -> Map<Seq<char>, TaskState> {
        Map::new(|n: Seq<char>| self.has_task(n), |n: Seq<char>| self.task(n))
    }
}

/// Why publishing a split on the task named `name` is refused, if it is: there
/// is no such task, or the task refuses it.
pub open spec fn submit_refusal_by_name(
    tasks: Map<Seq<char>, TaskState>,
    name: Seq<char>,
    caller: Identity,
    recipients: Seq<Identity>,
    amounts: Seq<u64>,
) -> Option<TaskError> {
    if tasks.contains_key(name) {
        tasks[name].submit_refusal(caller, recipients, amounts)
    } else {
        Some(TaskError::TaskNotFound)
    }
}

/// Why a claim of `who` on the task named `name` is refused, if it is: there is
/// no such task, or the task refuses it.
pub open spec fn claim_refusal_by_name(
    tasks: Map<Seq<char>, TaskState>,
    name: Seq<char>,
    who: Identity,
) -> Option<TaskError> {
    if tasks.contains_key(name) {
        tasks[name].claim_refusal(who)
    } else {
        Some(TaskError::TaskNotFound)
    }
}

impl TaskRegistry {
    /// The record at position `i` carries the name `name`.
    pub open spec fn stored_at(&self, name: Seq<char>, i: int) -> bool {
        0 <= i < self.tasks@.len() && self.tasks@[i]@.name == name
    }

    /// A task is registered under `name`.
    pub open spec fn has_task(&self, name: Seq<char>) -> bool {
        exists|i: int| self.stored_at(name, i)
    }

    /// The state of the task registered under `name`.
    pub open spec fn task(&self, name: Seq<char>) -> TaskState {
        self.tasks@[choose|i: int| self.stored_at(name, i)]@
    }

    /// No two records carry the same name.
    pub open spec fn names_unique(&self) -> bool {
        forall|i: int, j: int|
            0 <= i < j < self.tasks@.len() ==> self.tasks@[i]@.name != self.tasks@[j]@.name
    }

    /// Names are unique and every task is well formed.
    pub open spec fn wf(&self) -> bool {
        &&& self.names_unique()
        &&& forall|i: int| 0 <= i < self.tasks@.len() ==> (#[trigger] self.tasks@[i])@.wf()
    }

    /// An empty registry.
    pub fn new() -> (r: TaskRegistry)
        ensures
            r.wf(),
            r@ == Map::<Seq<char>, TaskState>::empty(),
    {
        let r = TaskRegistry { tasks: Vec::new() };
        assert(r@ =~= Map::<Seq<char>, TaskState>::empty());
        r
    }

    /// Where the record named `name` is kept, if there is one.
    pub fn position(&self, name: &String) -> (r: Option<usize>)
        ensures
            match r {
                Some(i) => self.stored_at(name@, i as int),
                None => !self.has_task(name@),
            },
    {
        let mut i: usize = 0;
        while i < self.tasks.len()
            invariant
                i <= self.tasks.len(),
                forall|j: int| 0 <= j < i ==> !self.stored_at(name@, j),
            decreases self.tasks.len() - i,
        {
            if self.tasks[i].name == *name {
                return Some(i);
            }
            i += 1;
        }
        None
    }

    /// Tells whether a task is registered under `name`.
    pub fn contains(&self, name: &String) -> (r: bool)
        ensures
            r == self@.contains_key(name@),
    {
        self.position(name).is_some()
    }

    /// The record registered under `name`, if there is one.
    pub fn get(&self, name: &String) -> (r: Option<&TaskConfig>)
        requires
            self.wf(),
        ensures
            match r {
                Some(t) => self@.contains_key(name@) && t@ == self@[name@] && t@.wf(),
                None => !self@.contains_key(name@),
            },
    {
        match self.position(name) {
            Some(i) => {
                proof {
                    self.lemma_lookup(i as int);
                }
                Some(&self.tasks[i])
            },
            None => None,
        }
    }

    /// In a registry with unique names, the state under a stored record's name
    /// is that record's.
    pub proof fn lemma_lookup(&self, i: int)
        requires
            self.names_unique(),
            0 <= i < self.tasks@.len(),
        ensures
            self@.contains_key(self.tasks@[i]@.name),
            self@[self.tasks@[i]@.name] == self.tasks@[i]@,
    {
        let name = self.tasks@[i]@.name;
        assert(self.stored_at(name, i));
        let k = choose|k: int| self.stored_at(name, k);
        assert(self.stored_at(name, k));
        if k < i {
            assert(self.tasks@[k]@.name != self.tasks@[i]@.name);
        }
        if i < k {
            assert(self.tasks@[i]@.name != self.tasks@[k]@.name);
        }
    }

    /// Replacing one record by another of the same name replaces its state in
    /// the mapping, and no other.
    pub proof fn lemma_replace(&self, post: &TaskRegistry, i: int)
        requires
            self.names_unique(),
            0 <= i < self.tasks@.len(),
            post.tasks@.len() == self.tasks@.len(),
            post.tasks@[i]@.name == self.tasks@[i]@.name,
            forall|j: int| 0 <= j < self.tasks@.len() && j != i ==> post.tasks@[j] == self.tasks@[j],
        ensures
            post.names_unique(),
            post@ == self@.insert(self.tasks@[i]@.name, post.tasks@[i]@),
    {
        let name = self.tasks@[i]@.name;
        self.lemma_lookup(i);
        assert(forall|j: int|
            0 <= j < self.tasks@.len() ==> post.tasks@[j]@.name == self.tasks@[j]@.name);
        assert(post.names_unique());
        assert forall|n: Seq<char>| post.has_task(n) == self.has_task(n) by {
            if post.has_task(n) {
                let k = choose|k: int| post.stored_at(n, k);
                assert(self.stored_at(n, k));
            }
            if self.has_task(n) {
                let k = choose|k: int| self.stored_at(n, k);
                assert(post.stored_at(n, k));
            }
        }
        assert forall|n: Seq<char>| post.has_task(n) implies post.task(n) == (if n == name {
            post.tasks@[i]@
        } else {
            self.task(n)
        }) by {
            let k = choose|k: int| post.stored_at(n, k);
            post.lemma_lookup(k);
            self.lemma_lookup(k);
            if k != i {
                assert(self.tasks@[k]@.name != self.tasks@[i]@.name);
            }
        }
        assert(post@ =~= self@.insert(name, post.tasks@[i]@));
    }

    /// Appending a record under a new name adds its state to the mapping.
    pub proof fn lemma_append(&self, post: &TaskRegistry, t: TaskConfig)
        requires
            self.names_unique(),
            !self.has_task(t@.name),
            post.tasks@ == self.tasks@.push(t),
        ensures
            post.names_unique(),
            post@ == self@.insert(t@.name, t@),
    {
        let n0 = self.tasks@.len() as int;
        assert forall|i: int, j: int| 0 <= i < j < post.tasks@.len() implies post.tasks@[i]@.name
            != post.tasks@[j]@.name by {
            if j == n0 {
                assert(!self.stored_at(t@.name, i));
            }
        }
        assert forall|n: Seq<char>| post.has_task(n) == (n == t@.name || self.has_task(n)) by {
            if post.has_task(n) {
                let k = choose|k: int| post.stored_at(n, k);
                if k < n0 {
                    assert(self.stored_at(n, k));
                }
            }
            if self.has_task(n) {
                let k = choose|k: int| self.stored_at(n, k);
                assert(post.stored_at(n, k));
            }
            if n == t@.name {
                assert(post.stored_at(n, n0));
            }
        }
        assert forall|n: Seq<char>| post.has_task(n) implies post.task(n) == (if n == t@.name {
            t@
        } else {
            self.task(n)
        }) by {
            let k = choose|k: int| post.stored_at(n, k);
            post.lemma_lookup(k);
            if k < n0 {
                self.lemma_lookup(k);
                assert(!self.stored_at(t@.name, k));
            }
        }
        assert(post@ =~= self@.insert(t@.name, t@));
    }
}

/// Sets up the program-wide record with its administrator.
pub fn initialize(admin: Identity, bump: u8) -> (config: GlobalConfig)
    ensures
        config.admin == admin,
        config.bump == bump,
{
    handle_initialize(admin, bump)
}

/// Registers a new task under `name`, with `locked_amount` to be locked by
/// `creator`; the event names what is to be locked. Returns `None`, and changes
/// nothing, exactly when the name is taken.
pub fn create_task(
    registry: &mut TaskRegistry,
    creator: Identity,
    name: String,
    locked_amount: u64,
    bump: u8,
) -> (r: Option<TaskCreated>)
    requires
        old(registry).wf(),
    ensures
        final(registry).wf(),
        match r {
            Some(event) => {
                &&& !old(registry)@.contains_key(name@)
                &&& final(registry)@ == old(registry)@.insert(
                    name@,
                    TaskState::create(creator, name@, locked_amount, bump),
                )
                &&& event.creator == creator
                &&& event.name@ == name@
                &&& event.locked_amount == locked_amount
            },
            None => old(registry)@.contains_key(name@) && final(registry)@ == old(registry)@,
        },
{
    if registry.position(&name).is_some() {
        return None;
    }
    let (task, event) = handle_create_task(creator, name, locked_amount, bump);
    let ghost pre = *registry;
    registry.tasks.push(task);
    proof {
        pre.lemma_append(registry, task);
    }
    Some(event)
}

/// Publishes the split of the task named `task_name`. Fails with `TaskNotFound`
/// when there is no such task; otherwise it does to that task what
/// `handle_submit_reward_distribution` does. No other task changes.
pub fn submit_reward_distribution(
    registry: &mut TaskRegistry,
    caller: Identity,
    task_name: String,
    recipients: Vec<Identity>,
    amounts: Vec<u64>,
) -> (r: Result<RewardDistributionSubmitted, TaskError>)
    requires
        old(registry).wf(),
    ensures
        final(registry).wf(),
        final(registry)@ == if old(registry)@.contains_key(task_name@) {
            old(registry)@.insert(
                task_name@,
                old(registry)@[task_name@].submit(caller, recipients@, amounts@),
            )
        } else {
            old(registry)@
        },
        match r {
            Ok(event) => {
                &&& submit_refusal_by_name(
                    old(registry)@,
                    task_name@,
                    caller,
                    recipients@,
                    amounts@,
                ) is None
                &&& event.task_name@ == task_name@
                &&& event.recipients@ == recipients@
                &&& event.amounts@ == amounts@
            },
            Err(e) => submit_refusal_by_name(
                old(registry)@,
                task_name@,
                caller,
                recipients@,
                amounts@,
            ) == Some(e),
        },
{
    let i = match registry.position(&task_name) {
        Some(i) => i,
        None => {
            return Err(TaskError::TaskNotFound);
        },
    };
    let ghost pre = *registry;
    proof {
        pre.lemma_lookup(i as int);
        law_submit_keeps_conservation(pre.tasks@[i as int]@, caller, recipients@, amounts@);
    }
    let r = handle_submit_reward_distribution(&mut registry.tasks[i], caller, recipients, amounts);
    proof {
        pre.lemma_replace(registry, i as int);
    }
    r
}

/// Pays out the next slot of `caller` in the task named `task_name`. Fails with
/// `TaskNotFound` when there is no such task; otherwise it does to that task
/// what `handle_claim_reward` does. No other task changes.
pub fn claim_reward(registry: &mut TaskRegistry, caller: Identity, task_name: String) -> (r:
    Result<RewardClaimed, TaskError>)
    requires
        old(registry).wf(),
    ensures
        final(registry).wf(),
        final(registry)@ == if old(registry)@.contains_key(task_name@) {
            old(registry)@.insert(task_name@, old(registry)@[task_name@].claim(caller))
        } else {
            old(registry)@
        },
        match r {
            Ok(event) => {
                &&& claim_refusal_by_name(old(registry)@, task_name@, caller) is None
                &&& event.task_name@ == task_name@
                &&& event.claimer == caller
                &&& event.amount == old(registry)@[task_name@].claim_amount(caller)
            },
            Err(e) => claim_refusal_by_name(old(registry)@, task_name@, caller) == Some(e),
        },
{
    let i = match registry.position(&task_name) {
        Some(i) => i,
        None => {
            return Err(TaskError::TaskNotFound);
        },
    };
    let ghost pre = *registry;
    proof {
        pre.lemma_lookup(i as int);
        law_claim_keeps_conservation(pre.tasks@[i as int]@, caller);
    }
    let r = handle_claim_reward(&mut registry.tasks[i], caller);
    proof {
        pre.lemma_replace(registry, i as int);
    }
    r
}

} // verus!
