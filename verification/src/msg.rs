//! The boundary message set: one variant per operation the protocol
//! surfaces, and the response shapes the queries answer with.

use vstd::prelude::*;
use crate::state::{Deposit, Reward, Withdraw};

verus! {

/// What instantiation is given. The three role identities all start as the
/// instantiating sender, whatever this message carries for them.
#[derive(Clone, Debug)]
pub struct InstantiateMsg {
    pub treasury_wallet: String,
    pub reward_contract: String,
    pub ust_deposited: u128,
    pub sellback_price: u64,
    pub anc_market: String,
    pub aust_contract: String,
    pub tier0rate: u64,
    pub tier0time: u64,
    pub tier1rate: u64,
    pub tier1time: u64,
    pub tier2rate: u64,
    pub tier2time: u64,
    pub tier3rate: u64,
    pub tier3time: u64,
}

/// The closed set of mutating operations.
#[derive(Debug)]
pub enum ExecuteMsg {
    DepositUst { entry_address: String, amount: u128 },
    WithdrawUst { entry_address: String, amount: u128 },
    ClaimReward { entry_address: String },
    SellReward { entry_address: String, amount: u128 },
    UpdateEntries {},
    CashoutYield {},
    SetTreasuryWallet { address: String },
    SetRewardContract { address: String },
    SetTierData { data: (u8, u64, u64) },
    SetAncMarket { address: String },
}

/// The closed set of queries.
#[derive(Clone, Debug)]
pub enum QueryMsg {
    GetEntry { entry_address: String },
    GetState {},
}

/// A copy of one entry, as a query answers it.
#[derive(Clone, Debug)]
pub struct EntryResponse {
    pub claimable_reward: u128,
    pub ust_deposited: u128,
    pub averaged_reward_rate: u64,
    pub ust_deposit_log: Vec<Deposit>,
    pub ust_withdraw_log: Vec<Withdraw>,
    pub dynamic_reward_log: Vec<Reward>,
}

/// A copy of the global state, as a query answers it.
#[derive(Clone, Debug)]
pub struct StateResponse {
    pub owner: String,
    pub treasury_wallet: String,
    pub reward_contract: String,
    pub ust_deposited: u128,
    pub sellback_price: u64,
    pub anc_market: String,
    pub aust_contract: String,
    pub tier0rate: u64,
    pub tier0time: u64,
    pub tier1rate: u64,
    pub tier1time: u64,
    pub tier2rate: u64,
    pub tier2time: u64,
    pub tier3rate: u64,
    pub tier3time: u64,
}

/// What a query answers with.
#[derive(Clone, Debug)]
pub enum QueryAnswer {
    Entry(EntryResponse),
    State(StateResponse),
}

} // verus!
