//! The read-only views over the store and the global state.

use vstd::prelude::*;
use crate::ledger::Ledger;
use crate::msg::{EntryResponse, StateResponse};
use crate::state::{clone_deposits, clone_rewards, clone_withdraws, Entry, State};

verus! {

/// The response mirrors the entry field for field.
pub open spec fn entry_reported(e: Entry, r: EntryResponse) -> bool {
    &&& r.claimable_reward == e.claimable_reward
    &&& r.ust_deposited == e.ust_deposited
    &&& r.averaged_reward_rate == e.averaged_reward_rate
    &&& r.ust_deposit_log@ == e.ust_deposit_log@
    &&& r.ust_withdraw_log@ == e.ust_withdraw_log@
    &&& r.dynamic_reward_log@ == e.dynamic_reward_log@
}

/// The response mirrors the state field for field.
pub open spec fn state_reported(s: State, r: StateResponse) -> bool {
    &&& r.owner == s.owner
    &&& r.treasury_wallet == s.treasury_wallet
    &&& r.reward_contract == s.reward_contract
    &&& r.ust_deposited == s.ust_deposited
    &&& r.sellback_price == s.sellback_price
    &&& r.anc_market == s.anc_market
    &&& r.aust_contract == s.aust_contract
    &&& r.tier0rate == s.tier0rate
    &&& r.tier0time == s.tier0time
    &&& r.tier1rate == s.tier1rate
    &&& r.tier1time == s.tier1time
    &&& r.tier2rate == s.tier2rate
    &&& r.tier2time == s.tier2time
    &&& r.tier3rate == s.tier3rate
    &&& r.tier3time == s.tier3time
}

/// Report the entry stored under `entry_address`, or nothing when the
/// identity has never deposited.
pub fn query_entry(ledger: &Ledger, entry_address: &String) -> (r: Option<EntryResponse>)
    requires
        ledger.wf(),
    ensures
        r is Some <==> ledger.has(entry_address@),
        match r {
            Some(er) => entry_reported(ledger.spec_get(entry_address@), er),
            None => true,
        },
{
    match ledger.find_index(entry_address) {
        Some(i) => {
            proof {
                crate::ledger::lemma_index_resolves(*ledger, i as int, entry_address@);
            }
            let entry = &ledger.entries[i].entry;
            Some(
                EntryResponse {
                    claimable_reward: entry.claimable_reward,
                    ust_deposited: entry.ust_deposited,
                    averaged_reward_rate: entry.averaged_reward_rate,
                    ust_deposit_log: clone_deposits(&entry.ust_deposit_log),
                    ust_withdraw_log: clone_withdraws(&entry.ust_withdraw_log),
                    dynamic_reward_log: clone_rewards(&entry.dynamic_reward_log),
                },
            )
        },
        None => None,
    }
}

/// Report the global state.
pub fn query_state(state: &State) -> (r: StateResponse)
    ensures
        state_reported(*state, r),
{
    StateResponse {
        owner: state.owner.clone(),
        treasury_wallet: state.treasury_wallet.clone(),
        reward_contract: state.reward_contract.clone(),
        ust_deposited: state.ust_deposited,
        sellback_price: state.sellback_price,
        anc_market: state.anc_market.clone(),
        aust_contract: state.aust_contract.clone(),
        tier0rate: state.tier0rate,
        tier0time: state.tier0time,
        tier1rate: state.tier1rate,
        tier1time: state.tier1time,
        tier2rate: state.tier2rate,
        tier2time: state.tier2time,
        tier3rate: state.tier3rate,
        tier3time: state.tier3time,
    }
}

} // verus!
