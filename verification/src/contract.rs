//! The contract surface: instantiation and the two dispatchers, one over
//! the closed set of mutating operations and one over the queries.

use vstd::prelude::*;
use crate::effects::Effect;
use crate::error::ContractError;
use crate::execute::{
    cashout_post, claim_post, deposit_fits, deposit_post, ledger_fits, sell_fits, sell_post,
    tiers_ordered, try_claim, try_deposit, try_sell, try_set_anc_market, try_set_reward_contract,
    try_set_tier_data, try_set_treasury_wallet, try_update_entries, try_withdraw,
    update_entries_post, withdraw_fits, with_tier, withdraw_post,
};
use crate::ledger::Ledger;
use crate::msg::{ExecuteMsg, InstantiateMsg, QueryAnswer, QueryMsg};
use crate::query::{entry_reported, query_entry, query_state, state_reported};
use crate::state::State;

verus! {

/// Create the global state: the instantiating sender takes all three roles,
/// and the remaining configuration is taken from the message as given.
pub fn instantiate(msg: InstantiateMsg, sender: &String) -> (s: State)
    requires
        msg.tier0time < msg.tier1time,
        msg.tier1time < msg.tier2time,
        msg.tier2time < msg.tier3time,
    ensures
        tiers_ordered(s),
        s.owner == *sender,
        s.treasury_wallet == *sender,
        s.reward_contract == *sender,
        s.ust_deposited == msg.ust_deposited,
        s.sellback_price == msg.sellback_price,
        s.anc_market == msg.anc_market,
        s.aust_contract == msg.aust_contract,
        s.tier0rate == msg.tier0rate,
        s.tier0time == msg.tier0time,
        s.tier1rate == msg.tier1rate,
        s.tier1time == msg.tier1time,
        s.tier2rate == msg.tier2rate,
        s.tier2time == msg.tier2time,
        s.tier3rate == msg.tier3rate,
        s.tier3time == msg.tier3time,
{
    State {
        owner: sender.clone(),
        treasury_wallet: sender.clone(),
        reward_contract: sender.clone(),
        ust_deposited: msg.ust_deposited,
        sellback_price: msg.sellback_price,
        anc_market: msg.anc_market,
        aust_contract: msg.aust_contract,
        tier0rate: msg.tier0rate,
        tier0time: msg.tier0time,
        tier1rate: msg.tier1rate,
        tier1time: msg.tier1time,
        tier2rate: msg.tier2rate,
        tier2time: msg.tier2time,
        tier3rate: msg.tier3rate,
        tier3time: msg.tier3time,
    }
}

/// The machine limits an operation needs before it is dispatched. Each is
/// asked only where the operation will get past its own checks.
pub open spec fn execute_fits(
    s: State,
    l: Ledger,
    sender: Seq<char>,
    time: u64,
    msg: ExecuteMsg,
) -> bool {
    match msg {
        ExecuteMsg::DepositUst { entry_address, amount } => deposit_fits(
            s,
            l,
            sender,
            entry_address@,
            amount,
        ),
        ExecuteMsg::WithdrawUst { entry_address, amount } => withdraw_fits(
            s,
            l,
            sender,
            entry_address@,
            amount,
        ),
        ExecuteMsg::SellReward { entry_address, amount } => sell_fits(
            s,
            l,
            sender,
            entry_address@,
            amount,
        ),
        ExecuteMsg::UpdateEntries {  } => sender == s.owner@ ==> ledger_fits(s, l, time),
        _ => true,
    }
}

/// Dispatch one mutating operation.
///
/// Every operation runs whole or fails whole: each arm's contract says
/// exactly what changed and which error came back. Deposits and withdrawals
/// move the protocol-wide running total with the entry; the configuration
/// setters leave the ledger alone; the strictly increasing order of the
/// tier durations survives every operation. `position_value` is the wrapped
/// position's current stable value, read by the boundary; only the yield
/// cashout consults it.
pub fn execute(
    state: &mut State,
    ledger: &mut Ledger,
    sender: &String,
    time: u64,
    position_value: u128,
    msg: ExecuteMsg,
) -> (res: Result<Vec<Effect>, ContractError>)
    requires
        old(ledger).wf(),
        execute_fits(*old(state), *old(ledger), sender@, time, msg),
    ensures
        tiers_ordered(*old(state)) ==> tiers_ordered(*final(state)),
        match msg {
            ExecuteMsg::DepositUst { entry_address, amount } => deposit_post(
                *old(state),
                *final(state),
                *old(ledger),
                *final(ledger),
                sender@,
                entry_address@,
                time,
                amount,
                res,
            ),
            ExecuteMsg::WithdrawUst { entry_address, amount } => withdraw_post(
                *old(state),
                *final(state),
                *old(ledger),
                *final(ledger),
                sender@,
                entry_address@,
                time,
                amount,
                res,
            ),
            ExecuteMsg::ClaimReward { entry_address } => claim_post(
                *old(state),
                *old(ledger),
                *final(ledger),
                sender@,
                entry_address@,
                res,
            ) && *final(state) == *old(state),
            ExecuteMsg::SellReward { entry_address, amount } => sell_post(
                *old(state),
                *old(ledger),
                *final(ledger),
                sender@,
                entry_address@,
                amount,
                res,
            ) && *final(state) == *old(state),
            ExecuteMsg::UpdateEntries {  } => update_entries_post(
                *old(state),
                *old(ledger),
                *final(ledger),
                sender@,
                time,
                res,
            ) && *final(state) == *old(state),
            ExecuteMsg::CashoutYield {  } => cashout_post(
                *old(state),
                sender@,
                position_value,
                res,
            ) && *final(state) == *old(state) && *final(ledger) == *old(ledger),
            ExecuteMsg::SetTreasuryWallet { address } => {
                &&& *final(ledger) == *old(ledger)
                &&& (if sender@ == old(state).owner@ {
                    res matches Ok(effects) && effects@ == Seq::<Effect>::empty() && *final(state)
                        == (State { treasury_wallet: address, ..*old(state) })
                } else {
                    res matches Err(e) && e == ContractError::Unauthorized && *final(state)
                        == *old(state)
                })
            },
            ExecuteMsg::SetRewardContract { address } => {
                &&& *final(ledger) == *old(ledger)
                &&& (if sender@ == old(state).owner@ {
                    res matches Ok(effects) && effects@ == Seq::<Effect>::empty() && *final(state)
                        == (State { reward_contract: address, ..*old(state) })
                } else {
                    res matches Err(e) && e == ContractError::Unauthorized && *final(state)
                        == *old(state)
                })
            },
            ExecuteMsg::SetTierData { data } => {
                &&& *final(ledger) == *old(ledger)
                &&& (if sender@ == old(state).owner@ && data.0 <= 3 && tiers_ordered(
                    with_tier(*old(state), data),
                ) {
                    res matches Ok(effects) && effects@ == Seq::<Effect>::empty() && *final(state)
                        == with_tier(*old(state), data)
                } else {
                    res matches Err(e) && e == ContractError::Unauthorized && *final(state)
                        == *old(state)
                })
            },
            ExecuteMsg::SetAncMarket { address } => {
                &&& *final(ledger) == *old(ledger)
                &&& (if sender@ == old(state).owner@ {
                    res matches Ok(effects) && effects@ == Seq::<Effect>::empty() && *final(state)
                        == (State { anc_market: address, ..*old(state) })
                } else {
                    res matches Err(e) && e == ContractError::Unauthorized && *final(state)
                        == *old(state)
                })
            },
        },
{
    match msg {
        ExecuteMsg::DepositUst { entry_address, amount } => {
            try_deposit(state, ledger, sender, &entry_address, time, amount)
        },
        ExecuteMsg::WithdrawUst { entry_address, amount } => {
            try_withdraw(state, ledger, sender, &entry_address, time, amount)
        },
        ExecuteMsg::ClaimReward { entry_address } => {
            try_claim(state, ledger, sender, &entry_address)
        },
        ExecuteMsg::SellReward { entry_address, amount } => {
            try_sell(state, ledger, sender, &entry_address, amount)
        },
        ExecuteMsg::UpdateEntries {  } => try_update_entries(state, ledger, sender, time),
        ExecuteMsg::CashoutYield {  } => {
            crate::execute::try_cashout_yield(state, sender, position_value)
        },
        ExecuteMsg::SetTreasuryWallet { address } => {
            match try_set_treasury_wallet(state, sender, address) {
                Ok(_) => Ok(empty_effects()),
                Err(e) => Err(e),
            }
        },
        ExecuteMsg::SetRewardContract { address } => {
            match try_set_reward_contract(state, sender, address) {
                Ok(_) => Ok(empty_effects()),
                Err(e) => Err(e),
            }
        },
        ExecuteMsg::SetTierData { data } => {
            match try_set_tier_data(state, sender, data) {
                Ok(_) => Ok(empty_effects()),
                Err(e) => Err(e),
            }
        },
        ExecuteMsg::SetAncMarket { address } => {
            match try_set_anc_market(state, sender, address) {
                Ok(_) => Ok(empty_effects()),
                Err(e) => Err(e),
            }
        },
    }
}

/// An empty effect list.
fn empty_effects() -> (r: Vec<Effect>)
    ensures
        r@ == Seq::<Effect>::empty(),
{
    let r: Vec<Effect> = Vec::new();
    proof {
        assert(r@ =~= Seq::<Effect>::empty());
    }
    r
}

/// Dispatch one query. An entry query on an identity that never deposited
/// answers nothing; everything else answers.
pub fn query(state: &State, ledger: &Ledger, msg: QueryMsg) -> (r: Option<QueryAnswer>)
    requires
        ledger.wf(),
    ensures
        match msg {
            QueryMsg::GetEntry { entry_address } => match r {
                Some(QueryAnswer::Entry(er)) => ledger.has(entry_address@) && entry_reported(
                    ledger.spec_get(entry_address@),
                    er,
                ),
                None => !ledger.has(entry_address@),
                _ => false,
            },
            QueryMsg::GetState {  } => match r {
                Some(QueryAnswer::State(sr)) => state_reported(*state, sr),
                _ => false,
            },
        },
{
    match msg {
        QueryMsg::GetEntry { entry_address } => {
            match query_entry(ledger, &entry_address) {
                Some(er) => Some(QueryAnswer::Entry(er)),
                None => None,
            }
        },
        QueryMsg::GetState {  } => Some(QueryAnswer::State(query_state(state))),
    }
}

} // verus!
