//! Contract-level behaviour: dispatch, authorization, queries, setters and
//! the emitted effects.

use ipr::contract::{execute, instantiate, query};
use ipr::effects::Effect;
use ipr::error::ContractError;
use ipr::ledger::Ledger;
use ipr::msg::{ExecuteMsg, InstantiateMsg, QueryAnswer, QueryMsg};
use ipr::state::State;

fn base_msg() -> InstantiateMsg {
    InstantiateMsg {
        treasury_wallet: "treasury".to_string(),
        reward_contract: "rewarder".to_string(),
        ust_deposited: 0,
        sellback_price: 2,
        anc_market: "market".to_string(),
        aust_contract: "aust".to_string(),
        tier0rate: 10,
        tier0time: 0,
        tier1rate: 20,
        tier1time: 50,
        tier2rate: 30,
        tier2time: 100,
        tier3rate: 40,
        tier3time: 200,
    }
}

fn fresh() -> (State, Ledger) {
    let owner = "owner".to_string();
    (instantiate(base_msg(), &owner), Ledger::new())
}

#[test]
fn instantiate_gives_all_roles_to_sender() {
    let owner = "owner".to_string();
    let s = instantiate(base_msg(), &owner);
    assert_eq!(s.owner, "owner");
    assert_eq!(s.treasury_wallet, "owner");
    assert_eq!(s.reward_contract, "owner");
    assert_eq!(s.sellback_price, 2);
    assert_eq!(s.tier2rate, 30);
    assert_eq!(s.tier3time, 200);
}

#[test]
fn scenario_deposit_then_withdraw() {
    let (mut s, mut l) = fresh();
    let alice = "alice".to_string();
    let effects = execute(
        &mut s,
        &mut l,
        &alice,
        0,
        0,
        ExecuteMsg::DepositUst { entry_address: "alice".to_string(), amount: 1000 },
    )
    .expect("a depositor may deposit for itself");
    assert_eq!(effects, vec![Effect::DepositStable { amount: 1000 }]);

    match query(&s, &l, QueryMsg::GetEntry { entry_address: "alice".to_string() }) {
        Some(QueryAnswer::Entry(er)) => {
            assert_eq!(er.ust_deposited, 1000);
            assert_eq!(er.dynamic_reward_log.len(), 1);
            assert_eq!(er.dynamic_reward_log[0].amount, 1000);
            assert_eq!(er.dynamic_reward_log[0].time, 0);
            assert_eq!(er.dynamic_reward_log[0].reward_tier, 0);
        },
        _ => panic!("the entry must exist after a deposit"),
    }

    let effects = execute(
        &mut s,
        &mut l,
        &alice,
        10,
        0,
        ExecuteMsg::WithdrawUst { entry_address: "alice".to_string(), amount: 400 },
    )
    .expect("the withdrawal is covered");
    assert_eq!(
        effects,
        vec![
            Effect::RedeemStable { amount: 400 },
            Effect::TransferStable { to: "alice".to_string(), amount: 400 },
        ]
    );

    match query(&s, &l, QueryMsg::GetEntry { entry_address: "alice".to_string() }) {
        Some(QueryAnswer::Entry(er)) => {
            assert_eq!(er.ust_deposited, 600);
            assert_eq!(er.dynamic_reward_log.len(), 1);
            assert_eq!(er.dynamic_reward_log[0].amount, 600);
            assert_eq!(er.dynamic_reward_log[0].time, 0);
            assert_eq!(er.dynamic_reward_log[0].reward_tier, 0);
            assert_eq!(er.ust_withdraw_log.len(), 1);
            assert_eq!(er.ust_withdraw_log[0].amount, 400);
            assert_eq!(er.ust_withdraw_log[0].time, 10);
        },
        _ => panic!("the entry must survive a partial withdrawal"),
    }
}

#[test]
fn owner_may_act_for_any_entry() {
    let (mut s, mut l) = fresh();
    let owner = "owner".to_string();
    execute(
        &mut s,
        &mut l,
        &owner,
        0,
        0,
        ExecuteMsg::DepositUst { entry_address: "bob".to_string(), amount: 10 },
    )
    .expect("the owner may deposit on an entry's behalf");
}

#[test]
fn stranger_cannot_mutate_and_state_is_unchanged() {
    let (mut s, mut l) = fresh();
    let alice = "alice".to_string();
    execute(
        &mut s,
        &mut l,
        &alice,
        0,
        0,
        ExecuteMsg::DepositUst { entry_address: "alice".to_string(), amount: 100 },
    )
    .expect("a depositor may deposit for itself");
    let mallory = "mallory".to_string();

    let err = execute(
        &mut s,
        &mut l,
        &mallory,
        1,
        0,
        ExecuteMsg::WithdrawUst { entry_address: "alice".to_string(), amount: 50 },
    )
    .unwrap_err();
    assert_eq!(err, ContractError::Unauthorized);

    let err = execute(
        &mut s,
        &mut l,
        &mallory,
        1,
        0,
        ExecuteMsg::DepositUst { entry_address: "alice".to_string(), amount: 50 },
    )
    .unwrap_err();
    assert_eq!(err, ContractError::Unauthorized);

    let err = execute(
        &mut s,
        &mut l,
        &mallory,
        1,
        0,
        ExecuteMsg::ClaimReward { entry_address: "alice".to_string() },
    )
    .unwrap_err();
    assert_eq!(err, ContractError::Unauthorized);

    let err = execute(&mut s, &mut l, &mallory, 1, 0, ExecuteMsg::UpdateEntries {}).unwrap_err();
    assert_eq!(err, ContractError::Unauthorized);

    let err = execute(&mut s, &mut l, &mallory, 1, 0, ExecuteMsg::CashoutYield {}).unwrap_err();
    assert_eq!(err, ContractError::Unauthorized);

    let err = execute(
        &mut s,
        &mut l,
        &mallory,
        1,
        0,
        ExecuteMsg::SetTreasuryWallet { address: "mallory".to_string() },
    )
    .unwrap_err();
    assert_eq!(err, ContractError::Unauthorized);

    match query(&s, &l, QueryMsg::GetEntry { entry_address: "alice".to_string() }) {
        Some(QueryAnswer::Entry(er)) => assert_eq!(er.ust_deposited, 100),
        _ => panic!("the entry must be untouched"),
    }
    assert_eq!(s.treasury_wallet, "owner");
}

#[test]
fn withdraw_without_entry_fails() {
    let (mut s, mut l) = fresh();
    let ghost_user = "nobody".to_string();
    let err = execute(
        &mut s,
        &mut l,
        &ghost_user,
        0,
        0,
        ExecuteMsg::WithdrawUst { entry_address: "nobody".to_string(), amount: 1 },
    )
    .unwrap_err();
    assert_eq!(err, ContractError::CannotWithdrawWithoutDeposit);
}

#[test]
fn claim_without_entry_fails() {
    let (mut s, mut l) = fresh();
    let ghost_user = "nobody".to_string();
    let err = execute(
        &mut s,
        &mut l,
        &ghost_user,
        0,
        0,
        ExecuteMsg::ClaimReward { entry_address: "nobody".to_string() },
    )
    .unwrap_err();
    assert_eq!(err, ContractError::CannotClaimWithoutDeposit);
}

#[test]
fn claim_pays_settled_reward_to_depositor() {
    let (mut s, mut l) = fresh();
    let alice = "alice".to_string();
    execute(
        &mut s,
        &mut l,
        &alice,
        0,
        0,
        ExecuteMsg::DepositUst { entry_address: "alice".to_string(), amount: 100 },
    )
    .expect("a depositor may deposit for itself");
    let owner = "owner".to_string();
    execute(&mut s, &mut l, &owner, 10, 0, ExecuteMsg::UpdateEntries {})
        .expect("the owner may run the batch update");
    let effects = execute(
        &mut s,
        &mut l,
        &alice,
        10,
        0,
        ExecuteMsg::ClaimReward { entry_address: "alice".to_string() },
    )
    .expect("a settled reward is claimable");
    // settled: rate 10 * amount 100 * elapsed 10
    assert_eq!(effects, vec![Effect::TransferReward { to: "alice".to_string(), amount: 10_000 }]);
    let err = execute(
        &mut s,
        &mut l,
        &alice,
        10,
        0,
        ExecuteMsg::ClaimReward { entry_address: "alice".to_string() },
    )
    .unwrap_err();
    assert_eq!(err, ContractError::NothingToClaim);
}

#[test]
fn batch_update_dispatch_is_idempotent() {
    let (mut s, mut l) = fresh();
    let alice = "alice".to_string();
    execute(
        &mut s,
        &mut l,
        &alice,
        0,
        0,
        ExecuteMsg::DepositUst { entry_address: "alice".to_string(), amount: 100 },
    )
    .expect("a depositor may deposit for itself");
    let owner = "owner".to_string();
    execute(&mut s, &mut l, &owner, 60, 0, ExecuteMsg::UpdateEntries {})
        .expect("the owner may run the batch update");
    let first = match query(&s, &l, QueryMsg::GetEntry { entry_address: "alice".to_string() }) {
        Some(QueryAnswer::Entry(er)) => er,
        _ => panic!("the entry must exist"),
    };
    execute(&mut s, &mut l, &owner, 60, 0, ExecuteMsg::UpdateEntries {})
        .expect("the owner may run the batch update");
    let second = match query(&s, &l, QueryMsg::GetEntry { entry_address: "alice".to_string() }) {
        Some(QueryAnswer::Entry(er)) => er,
        _ => panic!("the entry must exist"),
    };
    assert_eq!(second.claimable_reward, first.claimable_reward);
    assert_eq!(second.averaged_reward_rate, first.averaged_reward_rate);
    assert_eq!(second.dynamic_reward_log, first.dynamic_reward_log);
}

#[test]
fn sell_reward_debits_claimable_at_the_sellback_price() {
    let (mut s, mut l) = fresh();
    let alice = "alice".to_string();
    execute(
        &mut s,
        &mut l,
        &alice,
        0,
        0,
        ExecuteMsg::DepositUst { entry_address: "alice".to_string(), amount: 100 },
    )
    .expect("a depositor may deposit for itself");
    let owner = "owner".to_string();
    // settle 10 * 100 * 10 = 10_000 of claimable reward
    execute(&mut s, &mut l, &owner, 10, 0, ExecuteMsg::UpdateEntries {})
        .expect("the owner may run the batch update");
    let effects = execute(
        &mut s,
        &mut l,
        &alice,
        10,
        0,
        ExecuteMsg::SellReward { entry_address: "alice".to_string(), amount: 25 },
    )
    .expect("the settled balance covers the sale");
    // the stable leg pays amount times the sell-back price (2)
    assert_eq!(
        effects,
        vec![
            Effect::TransferStable { to: "alice".to_string(), amount: 50 },
            Effect::CollectReward { from: "alice".to_string(), amount: 25 },
        ]
    );
    match query(&s, &l, QueryMsg::GetEntry { entry_address: "alice".to_string() }) {
        Some(QueryAnswer::Entry(er)) => {
            assert_eq!(er.claimable_reward, 10_000 - 25);
            assert_eq!(er.ust_deposited, 100);
        },
        _ => panic!("the entry must survive a sale"),
    }
}

#[test]
fn sell_without_entry_fails() {
    let (mut s, mut l) = fresh();
    let ghost_user = "nobody".to_string();
    let err = execute(
        &mut s,
        &mut l,
        &ghost_user,
        0,
        0,
        ExecuteMsg::SellReward { entry_address: "nobody".to_string(), amount: 1 },
    )
    .unwrap_err();
    assert_eq!(err, ContractError::CannotClaimWithoutDeposit);
}

#[test]
fn sell_beyond_settled_balance_fails_and_changes_nothing() {
    let (mut s, mut l) = fresh();
    let alice = "alice".to_string();
    execute(
        &mut s,
        &mut l,
        &alice,
        0,
        0,
        ExecuteMsg::DepositUst { entry_address: "alice".to_string(), amount: 100 },
    )
    .expect("a depositor may deposit for itself");
    // nothing settled yet: any positive sale exceeds the balance
    let err = execute(
        &mut s,
        &mut l,
        &alice,
        0,
        0,
        ExecuteMsg::SellReward { entry_address: "alice".to_string(), amount: 1 },
    )
    .unwrap_err();
    assert_eq!(err, ContractError::NothingToClaim);
    match query(&s, &l, QueryMsg::GetEntry { entry_address: "alice".to_string() }) {
        Some(QueryAnswer::Entry(er)) => assert_eq!(er.claimable_reward, 0),
        _ => panic!("the entry must be untouched"),
    }
}

#[test]
fn setters_are_owner_gated_and_exact() {
    let (mut s, mut l) = fresh();
    let owner = "owner".to_string();
    execute(
        &mut s,
        &mut l,
        &owner,
        0,
        0,
        ExecuteMsg::SetTreasuryWallet { address: "vault".to_string() },
    )
    .expect("the owner may change the treasury wallet");
    assert_eq!(s.treasury_wallet, "vault");

    execute(
        &mut s,
        &mut l,
        &owner,
        0,
        0,
        ExecuteMsg::SetRewardContract { address: "minter".to_string() },
    )
    .expect("the owner may change the reward contract");
    assert_eq!(s.reward_contract, "minter");

    execute(
        &mut s,
        &mut l,
        &owner,
        0,
        0,
        ExecuteMsg::SetAncMarket { address: "market2".to_string() },
    )
    .expect("the owner may change the money market");
    assert_eq!(s.anc_market, "market2");

    execute(&mut s, &mut l, &owner, 0, 0, ExecuteMsg::SetTierData { data: (2, 77, 99) })
        .expect("the owner may change a tier");
    assert_eq!(s.tier2rate, 77);
    assert_eq!(s.tier2time, 99);
    assert_eq!(s.tier1rate, 20);

    let err = execute(&mut s, &mut l, &owner, 0, 0, ExecuteMsg::SetTierData { data: (4, 1, 1) })
        .unwrap_err();
    assert_eq!(err, ContractError::Unauthorized);
}

#[test]
fn query_state_mirrors_state() {
    let (s, l) = fresh();
    match query(&s, &l, QueryMsg::GetState {}) {
        Some(QueryAnswer::State(sr)) => {
            assert_eq!(sr.owner, "owner");
            assert_eq!(sr.sellback_price, 2);
            assert_eq!(sr.anc_market, "market");
            assert_eq!(sr.tier1rate, 20);
            assert_eq!(sr.tier3time, 200);
        },
        _ => panic!("the state query always answers"),
    }
}

#[test]
fn query_missing_entry_answers_nothing() {
    let (s, l) = fresh();
    assert!(query(&s, &l, QueryMsg::GetEntry { entry_address: "nobody".to_string() }).is_none());
}

#[test]
fn cashout_yield_pays_the_excess_over_deposits() {
    let (mut s, mut l) = fresh();
    let alice = "alice".to_string();
    execute(
        &mut s,
        &mut l,
        &alice,
        0,
        0,
        ExecuteMsg::DepositUst { entry_address: "alice".to_string(), amount: 1000 },
    )
    .expect("a depositor may deposit for itself");
    let owner = "owner".to_string();
    // the wrapped position is worth 1300: 300 of yield above the deposits
    let effects = execute(&mut s, &mut l, &owner, 5, 1300, ExecuteMsg::CashoutYield {})
        .expect("the owner may cash out");
    assert_eq!(
        effects,
        vec![
            Effect::RedeemStable { amount: 300 },
            Effect::TransferStable { to: "owner".to_string(), amount: 300 },
        ]
    );
}

#[test]
fn cashout_yield_with_no_excess_pays_nothing() {
    let (mut s, mut l) = fresh();
    let alice = "alice".to_string();
    execute(
        &mut s,
        &mut l,
        &alice,
        0,
        0,
        ExecuteMsg::DepositUst { entry_address: "alice".to_string(), amount: 1000 },
    )
    .expect("a depositor may deposit for itself");
    let owner = "owner".to_string();
    let effects = execute(&mut s, &mut l, &owner, 5, 1000, ExecuteMsg::CashoutYield {})
        .expect("the owner may cash out");
    assert!(effects.is_empty());
}

#[test]
fn global_total_follows_deposits_and_withdrawals() {
    let (mut s, mut l) = fresh();
    let alice = "alice".to_string();
    execute(
        &mut s,
        &mut l,
        &alice,
        0,
        0,
        ExecuteMsg::DepositUst { entry_address: "alice".to_string(), amount: 1000 },
    )
    .expect("a depositor may deposit for itself");
    assert_eq!(s.ust_deposited, 1000);
    let bob = "bob".to_string();
    execute(
        &mut s,
        &mut l,
        &bob,
        1,
        0,
        ExecuteMsg::DepositUst { entry_address: "bob".to_string(), amount: 500 },
    )
    .expect("a depositor may deposit for itself");
    assert_eq!(s.ust_deposited, 1500);
    execute(
        &mut s,
        &mut l,
        &alice,
        2,
        0,
        ExecuteMsg::WithdrawUst { entry_address: "alice".to_string(), amount: 400 },
    )
    .expect("the withdrawal is covered");
    assert_eq!(s.ust_deposited, 1100);
    match query(&s, &l, QueryMsg::GetState {}) {
        Some(QueryAnswer::State(sr)) => assert_eq!(sr.ust_deposited, 1100),
        _ => panic!("the state query always answers"),
    }
    // a failed withdrawal moves nothing
    execute(
        &mut s,
        &mut l,
        &alice,
        3,
        0,
        ExecuteMsg::WithdrawUst { entry_address: "alice".to_string(), amount: 601 },
    )
    .unwrap_err();
    assert_eq!(s.ust_deposited, 1100);
}

#[test]
fn tier_update_keeps_durations_strictly_increasing() {
    let (mut s, mut l) = fresh();
    let owner = "owner".to_string();
    // moving tier 1's duration past tier 2's is refused, state untouched
    let err = execute(&mut s, &mut l, &owner, 0, 0, ExecuteMsg::SetTierData { data: (1, 99, 150) })
        .unwrap_err();
    assert_eq!(err, ContractError::Unauthorized);
    assert_eq!(s.tier1rate, 20);
    assert_eq!(s.tier1time, 50);
    // a duration that keeps the order is accepted
    execute(&mut s, &mut l, &owner, 0, 0, ExecuteMsg::SetTierData { data: (1, 99, 60) })
        .expect("the ordered update is accepted");
    assert_eq!(s.tier1rate, 99);
    assert_eq!(s.tier1time, 60);
}

#[test]
fn error_descriptions_name_the_condition() {
    assert_eq!(ContractError::Unauthorized.describe(), "Unauthorized");
    assert_eq!(
        ContractError::CannotWithdrawBalanceZero.describe(),
        "You cannot withdraw UST when your balance is zero"
    );
    assert_eq!(
        ContractError::CannotWithdrawGreaterThanBalance.describe(),
        "You cannot withdraw an amount of UST greater than your balance"
    );
    assert_eq!(
        ContractError::CannotWithdrawWithoutDeposit.describe(),
        "You cannot withdraw UST when you have not deposited UST"
    );
    assert_eq!(
        ContractError::CannotClaimWithoutDeposit.describe(),
        "You cannot claim rewards without depositing UST"
    );
}

#[test]
fn conservation_across_dispatched_history() {
    let (mut s, mut l) = fresh();
    let alice = "alice".to_string();
    let bob = "bob".to_string();
    for (who, addr, amount, t) in [
        (&alice, "alice", 500u128, 0u64),
        (&bob, "bob", 300, 1),
        (&alice, "alice", 200, 2),
    ] {
        execute(
            &mut s,
            &mut l,
            who,
            t,
            0,
            ExecuteMsg::DepositUst { entry_address: addr.to_string(), amount },
        )
        .expect("a depositor may deposit for itself");
    }
    execute(
        &mut s,
        &mut l,
        &alice,
        5,
        0,
        ExecuteMsg::WithdrawUst { entry_address: "alice".to_string(), amount: 600 },
    )
    .expect("the withdrawal is covered");
    for (addr, expect) in [("alice", 100u128), ("bob", 300)] {
        match query(&s, &l, QueryMsg::GetEntry { entry_address: addr.to_string() }) {
            Some(QueryAnswer::Entry(er)) => {
                assert_eq!(er.ust_deposited, expect);
                let deposits: u128 = er.ust_deposit_log.iter().map(|d| d.amount).sum();
                let withdraws: u128 = er.ust_withdraw_log.iter().map(|w| w.amount).sum();
                assert_eq!(deposits - withdraws, er.ust_deposited);
                let slices: u128 = er.dynamic_reward_log.iter().map(|r| r.amount).sum();
                assert_eq!(slices, er.ust_deposited);
            },
            _ => panic!("both entries must exist"),
        }
    }
}

#[test]
fn deposit_overflow_is_kept_out_by_the_caller() {
    // the library's deposit contract asks the caller to keep the principal
    // within range; the boundary checks it with checked arithmetic
    let max = u128::MAX;
    assert!(max.checked_add(1).is_none());
}
