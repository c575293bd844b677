//! Outbound effect descriptors. A state transition returns these instead of
//! performing the outbound leg itself: the boundary layer turns them into
//! messages for the money-market adapter and the bank, and settlement
//! happens asynchronously.

use vstd::prelude::*;

verus! {

/// One outbound instruction emitted by a transition.
#[derive(Clone, Debug, PartialEq, Eq)]
pub enum Effect {
    /// Convert `amount` of stable value into the yield-bearing position.
    DepositStable { amount: u128 },
    /// Redeem `amount` of the yield-bearing position back into stable value.
    RedeemStable { amount: u128 },
    /// Pay `amount` of stable value out to `to`.
    TransferStable { to: String, amount: u128 },
    /// Pay `amount` of reward tokens out to `to`.
    TransferReward { to: String, amount: u128 },
    /// Collect `amount` of reward tokens from `from` into the protocol.
    CollectReward { from: String, amount: u128 },
}

} // verus!
