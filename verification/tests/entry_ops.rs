//! Entry-level behaviour: deposits, the FIFO unwind, claims, and the batch
//! update engine on concrete values.

use ipr::error::ContractError;
use ipr::execute::{none_deposit_helper, some_claim_helper, some_deposit_helper,
    some_withdraw_helper};
use ipr::state::{Reward, State};
use ipr::update::update_entry_rewards;

fn test_state(owner: &str) -> State {
    State {
        owner: owner.to_string(),
        treasury_wallet: owner.to_string(),
        reward_contract: owner.to_string(),
        ust_deposited: 0,
        sellback_price: 1,
        anc_market: "market".to_string(),
        aust_contract: "aust".to_string(),
        tier0rate: 10,
        tier0time: 0,
        tier1rate: 20,
        tier1time: 50,
        tier2rate: 30,
        tier2time: 100,
        tier3rate: 40,
        tier3time: 200,
    }
}

#[test]
fn first_deposit_opens_entry() {
    let e = none_deposit_helper(1000, 0);
    assert_eq!(e.ust_deposited, 1000);
    assert_eq!(e.claimable_reward, 0);
    assert_eq!(e.averaged_reward_rate, 0);
    assert_eq!(e.ust_deposit_log.len(), 1);
    assert_eq!(e.ust_deposit_log[0].amount, 1000);
    assert_eq!(e.ust_deposit_log[0].time, 0);
    assert!(e.ust_withdraw_log.is_empty());
    assert_eq!(e.dynamic_reward_log.len(), 1);
    assert_eq!(e.dynamic_reward_log[0].amount, 1000);
    assert_eq!(e.dynamic_reward_log[0].time, 0);
    assert_eq!(e.dynamic_reward_log[0].reward_tier, 0);
}

#[test]
fn second_deposit_appends() {
    let e = none_deposit_helper(100, 0);
    let e = some_deposit_helper(e, 50, 7);
    assert_eq!(e.ust_deposited, 150);
    assert_eq!(e.ust_deposit_log.len(), 2);
    assert_eq!(e.ust_deposit_log[1].amount, 50);
    assert_eq!(e.ust_deposit_log[1].time, 7);
    assert_eq!(e.dynamic_reward_log.len(), 2);
    assert_eq!(e.dynamic_reward_log[1].amount, 50);
    assert_eq!(e.dynamic_reward_log[1].reward_tier, 0);
}

#[test]
fn fifo_unwind_consumes_oldest_first() {
    let e = none_deposit_helper(100, 0);
    let e = some_deposit_helper(e, 50, 1);
    let e = some_withdraw_helper(e, 2, 120).expect("withdrawal is covered");
    assert_eq!(e.ust_deposited, 30);
    assert_eq!(e.dynamic_reward_log.len(), 2);
    assert_eq!(e.dynamic_reward_log[0].amount, 0);
    assert_eq!(e.dynamic_reward_log[0].time, 0);
    assert_eq!(e.dynamic_reward_log[1].amount, 30);
    assert_eq!(e.dynamic_reward_log[1].time, 1);
    assert_eq!(e.ust_withdraw_log.len(), 1);
    assert_eq!(e.ust_withdraw_log[0].amount, 120);
    assert_eq!(e.ust_withdraw_log[0].time, 2);
}

#[test]
fn unwind_keeps_untouched_tail() {
    let e = none_deposit_helper(10, 0);
    let e = some_deposit_helper(e, 20, 1);
    let e = some_deposit_helper(e, 30, 2);
    let e = some_withdraw_helper(e, 3, 10).expect("withdrawal is covered");
    assert_eq!(e.dynamic_reward_log[0].amount, 0);
    assert_eq!(e.dynamic_reward_log[1].amount, 20);
    assert_eq!(e.dynamic_reward_log[2].amount, 30);
    assert_eq!(e.ust_deposited, 50);
}

#[test]
fn unwind_partial_slice() {
    let e = none_deposit_helper(100, 0);
    let e = some_withdraw_helper(e, 5, 40).expect("withdrawal is covered");
    assert_eq!(e.ust_deposited, 60);
    assert_eq!(e.dynamic_reward_log[0].amount, 60);
}

#[test]
fn invariant_holds_along_history() {
    let e = none_deposit_helper(500, 0);
    let e = some_deposit_helper(e, 250, 10);
    let e = some_withdraw_helper(e, 20, 600).expect("withdrawal is covered");
    let e = some_deposit_helper(e, 30, 40);
    let e = some_withdraw_helper(e, 50, 100).expect("withdrawal is covered");
    let slice_sum: u128 = e.dynamic_reward_log.iter().map(|r| r.amount).sum();
    assert_eq!(slice_sum, e.ust_deposited);
    let deposits: u128 = e.ust_deposit_log.iter().map(|d| d.amount).sum();
    let withdraws: u128 = e.ust_withdraw_log.iter().map(|w| w.amount).sum();
    assert_eq!(deposits - withdraws, e.ust_deposited);
}

#[test]
fn withdraw_from_zero_balance_fails() {
    let e = none_deposit_helper(100, 0);
    let e = some_withdraw_helper(e, 1, 100).expect("withdrawal is covered");
    assert_eq!(e.ust_deposited, 0);
    let err = some_withdraw_helper(e, 2, 10).unwrap_err();
    assert_eq!(err, ContractError::CannotWithdrawBalanceZero);
}

#[test]
fn withdraw_more_than_balance_fails() {
    let e = none_deposit_helper(100, 0);
    let err = some_withdraw_helper(e, 1, 101).unwrap_err();
    assert_eq!(err, ContractError::CannotWithdrawGreaterThanBalance);
}

#[test]
fn claim_zeroes_reward_exactly_once() {
    let mut e = none_deposit_helper(100, 0);
    e.claimable_reward = 77;
    let (e, paid) = some_claim_helper(e).expect("a positive balance is claimable");
    assert_eq!(paid, 77);
    assert_eq!(e.claimable_reward, 0);
    assert_eq!(e.ust_deposited, 100);
    let err = some_claim_helper(e).unwrap_err();
    assert_eq!(err, ContractError::NothingToClaim);
}

#[test]
fn claim_with_nothing_settled_fails_and_changes_nothing() {
    let e = none_deposit_helper(100, 0);
    let before = e.clone();
    let err = some_claim_helper(e).unwrap_err();
    assert_eq!(err, ContractError::NothingToClaim);
    assert_eq!(before.claimable_reward, 0);
    assert_eq!(before.ust_deposited, 100);
}

#[test]
fn batch_update_accrues_rate_times_amount_times_elapsed() {
    let s = test_state("owner");
    let e = none_deposit_helper(100, 0);
    let e = update_entry_rewards(&s, &e, 10);
    // elapsed 10 at tier 0 (rate 10): 10 * 100 * 10
    assert_eq!(e.claimable_reward, 10_000);
    assert_eq!(e.last_update_time, 10);
    assert_eq!(e.averaged_reward_rate, 10);
}

#[test]
fn batch_update_promotes_tier_and_accrues_at_new_rate() {
    let s = test_state("owner");
    let e = none_deposit_helper(100, 0);
    // elapsed 60 crosses tier 1 (min 50): rate 20 for the whole interval
    let e = update_entry_rewards(&s, &e, 60);
    assert_eq!(e.dynamic_reward_log[0].reward_tier, 1);
    assert_eq!(e.claimable_reward, 20 * 100 * 60);
    assert_eq!(e.averaged_reward_rate, 20);
}

#[test]
fn batch_update_weighted_mean_and_checkpoints() {
    let s = test_state("owner");
    let e = none_deposit_helper(100, 0);
    let e = some_deposit_helper(e, 300, 60);
    let e = update_entry_rewards(&s, &e, 100);
    // slice of 100 is 100 old: tier 2, rate 30; slice of 300 is 40 old: tier 0, rate 10
    assert_eq!(e.dynamic_reward_log[0].reward_tier, 2);
    assert_eq!(e.dynamic_reward_log[1].reward_tier, 0);
    // accrual: 30 * 100 * 100 + 10 * 300 * 40
    assert_eq!(e.claimable_reward, 300_000 + 120_000);
    // weighted mean: (100 * 30 + 300 * 10) / 400
    assert_eq!(e.averaged_reward_rate, 15);
    assert_eq!(e.last_update_time, 100);
}

#[test]
fn batch_update_twice_at_same_time_is_a_no_op() {
    let s = test_state("owner");
    let e = none_deposit_helper(100, 0);
    let once = update_entry_rewards(&s, &e, 60);
    let twice = update_entry_rewards(&s, &once, 60);
    assert_eq!(twice.claimable_reward, once.claimable_reward);
    assert_eq!(twice.averaged_reward_rate, once.averaged_reward_rate);
    assert_eq!(twice.last_update_time, once.last_update_time);
    assert_eq!(twice.dynamic_reward_log, once.dynamic_reward_log);
}

#[test]
fn batch_update_never_demotes_a_tier() {
    let s = test_state("owner");
    let e = none_deposit_helper(100, 0);
    let e = update_entry_rewards(&s, &e, 250);
    assert_eq!(e.dynamic_reward_log[0].reward_tier, 3);
    // a later pass with a smaller elapsed reading keeps the tier
    let e = update_entry_rewards(&s, &e, 250);
    assert_eq!(e.dynamic_reward_log[0].reward_tier, 3);
}

#[test]
fn batch_update_skips_consumed_slices() {
    let s = test_state("owner");
    let e = none_deposit_helper(100, 0);
    let e = some_deposit_helper(e, 50, 0);
    let e = some_withdraw_helper(e, 10, 100).expect("withdrawal is covered");
    // first slice fully consumed at t=10; second holds 50
    let e2 = update_entry_rewards(&s, &e, 20);
    assert_eq!(e2.dynamic_reward_log[0].amount, 0);
    assert_eq!(e2.dynamic_reward_log[0].reward_tier, 0);
    // only the active slice accrues: from the checkpoint 0 to 20 at rate 10
    assert_eq!(e2.claimable_reward, 10 * 50 * 20);
}

#[test]
fn entry_well_formedness_survives_update() {
    let s = test_state("owner");
    let e = none_deposit_helper(500, 0);
    let e = some_withdraw_helper(e, 10, 200).expect("withdrawal is covered");
    let e = update_entry_rewards(&s, &e, 60);
    let slice_sum: u128 = e.dynamic_reward_log.iter().map(|r| r.amount).sum();
    assert_eq!(slice_sum, e.ust_deposited);
    assert_eq!(e.ust_deposited, 300);
}

#[test]
fn exact_unwound_log_shape() {
    let e = none_deposit_helper(100, 3);
    let e = some_deposit_helper(e, 50, 8);
    let e = some_withdraw_helper(e, 9, 120).expect("withdrawal is covered");
    assert_eq!(
        e.dynamic_reward_log,
        vec![
            Reward { amount: 0, time: 3, reward_tier: 0 },
            Reward { amount: 30, time: 8, reward_tier: 0 },
        ]
    );
}

#[test]
fn withdraw_everything_leaves_placeholders() {
    let e = none_deposit_helper(10, 0);
    let e = some_deposit_helper(e, 20, 1);
    let e = some_withdraw_helper(e, 2, 30).expect("withdrawal is covered");
    assert_eq!(e.ust_deposited, 0);
    assert_eq!(e.dynamic_reward_log.len(), 2);
    assert!(e.dynamic_reward_log.iter().all(|r| r.amount == 0));
}
