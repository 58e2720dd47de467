use task_escrow::amounts::sum_amounts;
use task_escrow::error::TaskError;
use task_escrow::identity::Identity;
use task_escrow::instructions::{
    handle_claim_reward, handle_create_task, handle_initialize, handle_submit_reward_distribution,
    next_claim,
};
use task_escrow::states::{GlobalConfig, TaskConfig};

fn id(n: u8) -> Identity {
    Identity::new([n; 32])
}

fn task(name: &str, creator: Identity, locked: u64) -> TaskConfig {
    handle_create_task(creator, name.to_string(), locked, 255).0
}

#[test]
fn identities_compare_by_all_bytes() {
    let a = id(1);
    let mut bytes = [1u8; 32];
    assert!(a.same(&Identity::new(bytes)));
    bytes[31] = 2;
    assert!(!a.same(&Identity::new(bytes)));
    bytes[31] = 1;
    bytes[0] = 0;
    assert!(!a.same(&Identity::new(bytes)));
    assert_eq!(Identity::new([7; 32]).bytes, [7u8; 32]);
}

#[test]
fn initialize_records_the_admin() {
    let g = handle_initialize(id(9), 254);
    assert_eq!(g.admin, id(9));
    assert_eq!(g.bump, 254);
    assert_eq!(GlobalConfig::SPACE, 41);
    assert_eq!(TaskConfig::SPACE, 4216);
}

#[test]
fn created_task_is_empty_and_fully_funded() {
    let (t, ev) = handle_create_task(id(1), "alpha".to_string(), 100, 7);
    assert_eq!(t.creator, id(1));
    assert_eq!(t.name, "alpha");
    assert_eq!(t.locked_amount, 100);
    assert_eq!(t.bump, 7);
    assert!(!t.reward_distribution_submitted);
    assert!(t.recipients.is_empty());
    assert!(t.amounts.is_empty());
    assert!(t.claimed.is_empty());
    assert_eq!(t.balance(), 100);
    assert_eq!(ev.creator, id(1));
    assert_eq!(ev.name, "alpha");
    assert_eq!(ev.locked_amount, 100);
}

#[test]
fn sums_are_exact_or_reported_as_too_large() {
    assert_eq!(sum_amounts(&vec![]), Some(0));
    assert_eq!(sum_amounts(&vec![60, 40]), Some(100));
    assert_eq!(sum_amounts(&vec![u64::MAX, 0]), Some(u64::MAX));
    assert_eq!(sum_amounts(&vec![u64::MAX, 1]), None);
    assert_eq!(sum_amounts(&vec![1, u64::MAX, 5]), None);
}

#[test]
fn split_then_claim_once_then_refused() {
    let (x, y, creator) = (id(10), id(11), id(1));
    let mut t = task("alpha", creator, 100);
    let ev = handle_submit_reward_distribution(&mut t, creator, vec![x, y], vec![60, 40]).unwrap();
    assert_eq!(ev.task_name, "alpha");
    assert_eq!(ev.recipients, vec![x, y]);
    assert_eq!(ev.amounts, vec![60, 40]);
    assert!(t.reward_distribution_submitted);
    assert_eq!(t.recipients, vec![x, y]);
    assert_eq!(t.amounts, vec![60, 40]);
    assert_eq!(t.claimed, vec![false, false]);
    assert_eq!(t.balance(), 100);

    let paid = handle_claim_reward(&mut t, x).unwrap();
    assert_eq!(paid.task_name, "alpha");
    assert_eq!(paid.claimer, x);
    assert_eq!(paid.amount, 60);
    assert_eq!(t.claimed, vec![true, false]);
    assert_eq!(t.balance(), 40);

    let again = handle_claim_reward(&mut t, x);
    assert_eq!(again.unwrap_err(), TaskError::RewardAlreadyClaimed);
    assert_eq!(t.claimed, vec![true, false]);
    assert_eq!(t.balance(), 40);

    let last = handle_claim_reward(&mut t, y).unwrap();
    assert_eq!(last.amount, 40);
    assert_eq!(t.claimed, vec![true, true]);
    assert_eq!(t.balance(), 0);
    assert_eq!(t.amounts.iter().sum::<u64>(), t.locked_amount);
}

#[test]
fn split_that_does_not_add_up_is_refused() {
    let creator = id(1);
    let mut t = task("beta", creator, 50);
    let r = handle_submit_reward_distribution(&mut t, creator, vec![id(2), id(3)], vec![20, 20]);
    assert_eq!(r.unwrap_err(), TaskError::InvalidRewardDistribution);
    assert!(!t.reward_distribution_submitted);
    assert!(t.recipients.is_empty() && t.amounts.is_empty() && t.claimed.is_empty());
    let r = handle_submit_reward_distribution(&mut t, creator, vec![id(2), id(3)], vec![30, 21]);
    assert_eq!(r.unwrap_err(), TaskError::InvalidRewardDistribution);
    assert!(!t.reward_distribution_submitted);
}

#[test]
fn split_whose_sum_exceeds_the_word_is_refused() {
    let creator = id(1);
    let mut t = task("wide", creator, 4);
    // Wrapping arithmetic would make these add up to 4.
    let r = handle_submit_reward_distribution(
        &mut t,
        creator,
        vec![id(2), id(3)],
        vec![u64::MAX, 5],
    );
    assert_eq!(r.unwrap_err(), TaskError::InvalidRewardDistribution);
    assert!(!t.reward_distribution_submitted);
    assert_eq!(t.balance(), 4);
}

#[test]
fn split_with_mismatched_lengths_is_refused() {
    let creator = id(1);
    let mut t = task("uneven", creator, 50);
    let r = handle_submit_reward_distribution(&mut t, creator, vec![id(2)], vec![20, 30]);
    assert_eq!(r.unwrap_err(), TaskError::InvalidRewardDistribution);
    let r = handle_submit_reward_distribution(&mut t, creator, vec![id(2), id(3)], vec![50]);
    assert_eq!(r.unwrap_err(), TaskError::InvalidRewardDistribution);
    assert!(!t.reward_distribution_submitted);
    assert!(t.recipients.is_empty());
}

#[test]
fn split_from_a_stranger_is_refused() {
    let (creator, z) = (id(1), id(26));
    let mut t = task("gamma", creator, 30);
    let r = handle_submit_reward_distribution(&mut t, z, vec![z], vec![30]);
    assert_eq!(r.unwrap_err(), TaskError::Unauthorized);
    assert!(!t.reward_distribution_submitted);
    assert!(t.recipients.is_empty() && t.amounts.is_empty() && t.claimed.is_empty());
    assert_eq!(t.creator, creator);
    assert_eq!(t.locked_amount, 30);
}

#[test]
fn authorization_is_checked_before_the_split() {
    let (creator, z) = (id(1), id(26));
    let mut t = task("gamma", creator, 30);
    // Wrong in every other way too: the caller still decides the error.
    let r = handle_submit_reward_distribution(&mut t, z, vec![z], vec![1, 2]);
    assert_eq!(r.unwrap_err(), TaskError::Unauthorized);
}

#[test]
fn claim_before_split_is_refused_for_everyone() {
    let creator = id(1);
    let mut t = task("delta", creator, 10);
    for who in [creator, id(2), id(0), id(255)] {
        let r = handle_claim_reward(&mut t, who);
        assert_eq!(r.unwrap_err(), TaskError::RewardDistributionNotSubmitted);
    }
    assert!(!t.reward_distribution_submitted);
    assert_eq!(t.balance(), 10);
}

#[test]
fn claim_by_someone_not_listed_is_refused() {
    let creator = id(1);
    let mut t = task("listed", creator, 10);
    handle_submit_reward_distribution(&mut t, creator, vec![id(2)], vec![10]).unwrap();
    let r = handle_claim_reward(&mut t, id(3));
    assert_eq!(r.unwrap_err(), TaskError::NotEligible);
    let r = handle_claim_reward(&mut t, creator);
    assert_eq!(r.unwrap_err(), TaskError::NotEligible);
    assert_eq!(t.claimed, vec![false]);
    assert_eq!(t.balance(), 10);
}

#[test]
fn second_split_is_refused_and_changes_nothing() {
    let creator = id(1);
    let mut t = task("once", creator, 10);
    handle_submit_reward_distribution(&mut t, creator, vec![id(2), id(3)], vec![4, 6]).unwrap();
    handle_claim_reward(&mut t, id(3)).unwrap();
    let r = handle_submit_reward_distribution(&mut t, creator, vec![id(4)], vec![10]);
    assert_eq!(r.unwrap_err(), TaskError::InvalidRewardDistribution);
    assert_eq!(t.recipients, vec![id(2), id(3)]);
    assert_eq!(t.amounts, vec![4, 6]);
    assert_eq!(t.claimed, vec![false, true]);
    let r = handle_submit_reward_distribution(&mut t, id(9), vec![id(4)], vec![10]);
    assert_eq!(r.unwrap_err(), TaskError::Unauthorized);
    assert_eq!(t.recipients, vec![id(2), id(3)]);
    assert_eq!(t.claimed, vec![false, true]);
    assert_eq!(t.balance(), 4);
}

#[test]
fn repeated_recipient_is_paid_slot_by_slot_in_order() {
    let (creator, x, y) = (id(1), id(2), id(3));
    let mut t = task("twice", creator, 100);
    handle_submit_reward_distribution(&mut t, creator, vec![x, y, x, x], vec![10, 20, 30, 40])
        .unwrap();
    assert_eq!(handle_claim_reward(&mut t, x).unwrap().amount, 10);
    assert_eq!(t.claimed, vec![true, false, false, false]);
    assert_eq!(handle_claim_reward(&mut t, x).unwrap().amount, 30);
    assert_eq!(t.claimed, vec![true, false, true, false]);
    assert_eq!(t.balance(), 60);
    assert_eq!(handle_claim_reward(&mut t, y).unwrap().amount, 20);
    assert_eq!(handle_claim_reward(&mut t, x).unwrap().amount, 40);
    assert_eq!(t.claimed, vec![true, true, true, true]);
    assert_eq!(t.balance(), 0);
    assert_eq!(handle_claim_reward(&mut t, x).unwrap_err(), TaskError::RewardAlreadyClaimed);
    assert_eq!(handle_claim_reward(&mut t, y).unwrap_err(), TaskError::RewardAlreadyClaimed);
    assert_eq!(t.balance(), 0);
}

#[test]
fn empty_split_of_nothing_is_accepted() {
    let creator = id(1);
    let mut t = task("none", creator, 0);
    handle_submit_reward_distribution(&mut t, creator, vec![], vec![]).unwrap();
    assert!(t.reward_distribution_submitted);
    assert!(t.claimed.is_empty());
    assert_eq!(handle_claim_reward(&mut t, creator).unwrap_err(), TaskError::NotEligible);
    assert_eq!(t.balance(), 0);
}

#[test]
fn zero_amount_slot_is_claimed_once() {
    let creator = id(1);
    let mut t = task("zero", creator, 5);
    handle_submit_reward_distribution(&mut t, creator, vec![id(2), id(3)], vec![0, 5]).unwrap();
    assert_eq!(handle_claim_reward(&mut t, id(2)).unwrap().amount, 0);
    assert_eq!(t.balance(), 5);
    assert_eq!(handle_claim_reward(&mut t, id(2)).unwrap_err(), TaskError::RewardAlreadyClaimed);
}

#[test]
fn vault_is_locked_amount_less_claimed_amounts() {
    let creator = id(1);
    let mut t = task("vault", creator, u64::MAX);
    let who = vec![id(2), id(3), id(4)];
    handle_submit_reward_distribution(&mut t, creator, who, vec![u64::MAX - 3, 1, 2]).unwrap();
    assert_eq!(t.balance(), u64::MAX);
    handle_claim_reward(&mut t, id(4)).unwrap();
    assert_eq!(t.balance(), u64::MAX - 2);
    handle_claim_reward(&mut t, id(2)).unwrap();
    assert_eq!(t.balance(), 1);
    handle_claim_reward(&mut t, id(3)).unwrap();
    assert_eq!(t.balance(), 0);
}

#[test]
fn every_refusal_has_its_message() {
    assert_eq!(
        TaskError::InvalidRewardDistribution.message(),
        "Invalid reward distribution: sum of amounts doesn't match locked amount"
    );
    assert_eq!(TaskError::TaskNotFound.message(), "Task not found");
    assert_eq!(
        TaskError::Unauthorized.message(),
        "Unauthorized: only task creator can submit reward distribution"
    );
    assert_eq!(TaskError::RewardAlreadyClaimed.message(), "Reward already claimed");
    assert_eq!(TaskError::NotEligible.message(), "Not eligible for reward");
    assert_eq!(
        TaskError::RewardDistributionNotSubmitted.message(),
        "Reward distribution not submitted"
    );
}

#[test]
fn claim_is_decided_without_touching_the_record() {
    let (creator, x, y) = (id(1), id(2), id(3));
    let mut t = task("ask", creator, 9);
    assert_eq!(next_claim(&t, x), Err(TaskError::RewardDistributionNotSubmitted));
    handle_submit_reward_distribution(&mut t, creator, vec![y, x, x], vec![2, 3, 4]).unwrap();
    assert_eq!(next_claim(&t, x), Ok(1));
    assert_eq!(next_claim(&t, x), Ok(1));
    assert_eq!(t.claimed, vec![false, false, false]);
    assert_eq!(next_claim(&t, y), Ok(0));
    assert_eq!(next_claim(&t, creator), Err(TaskError::NotEligible));
    assert_eq!(handle_claim_reward(&mut t, x).unwrap().amount, 3);
    assert_eq!(next_claim(&t, x), Ok(2));
    assert_eq!(handle_claim_reward(&mut t, x).unwrap().amount, 4);
    assert_eq!(next_claim(&t, x), Err(TaskError::RewardAlreadyClaimed));
    assert_eq!(t.balance(), 2);
}

#[test]
fn well_formed_records_are_told_from_broken_ones() {
    let creator = id(1);
    let mut t = task("shape", creator, 10);
    assert!(t.is_well_formed());
    t.amounts.push(10);
    assert!(!t.is_well_formed());
    t.recipients.push(id(2));
    t.claimed.push(false);
    assert!(!t.is_well_formed());
    t.reward_distribution_submitted = true;
    assert!(t.is_well_formed());
    t.amounts[0] = 9;
    assert!(!t.is_well_formed());
    t.amounts[0] = 10;
    t.claimed.push(true);
    assert!(!t.is_well_formed());
    t.claimed.pop();
    t.amounts.push(u64::MAX);
    t.recipients.push(id(3));
    t.claimed.push(false);
    assert!(!t.is_well_formed());
}

#[test]
fn amounts_add_up_to_the_locked_amount_after_every_operation() {
    let (creator, x, y) = (id(1), id(2), id(3));
    let mut t = task("sum", creator, 77);
    handle_submit_reward_distribution(&mut t, creator, vec![x, y, x], vec![7, 30, 40]).unwrap();
    let callers = [x, y, creator, x, x, y];
    let mut vault = 77u64;
    for who in callers {
        let before = t.claimed.clone();
        match handle_claim_reward(&mut t, who) {
            Ok(ev) => vault -= ev.amount,
            Err(_) => assert_eq!(t.claimed, before),
        }
        assert!(t.is_well_formed());
        assert_eq!(t.amounts.iter().sum::<u64>(), 77);
        assert_eq!(t.locked_amount, 77);
        assert_eq!(t.balance(), vault);
        for (was, is) in before.iter().zip(t.claimed.iter()) {
            assert!(!*was || *is);
        }
    }
    assert_eq!(vault, 0);
}
