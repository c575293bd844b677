//! The closed error taxonomy of the ledger. Every failure aborts the current
//! operation; nothing is retried internally.

use vstd::prelude::*;

verus! {

/// Why an operation was refused. Each variant names the exact condition under
/// which it is returned; the operation's contract states that condition.
#[derive(Clone, Copy, Debug, PartialEq, Eq, Structural)]
pub enum ContractError {
    /// The caller is neither the entry's own identity nor the protocol owner.
    Unauthorized,
    /// A withdrawal targeted an entry that does not exist.
    CannotWithdrawWithoutDeposit,
    /// A withdrawal targeted an entry whose principal is zero.
    CannotWithdrawBalanceZero,
    /// A withdrawal asked for more than the entry's current principal.
    CannotWithdrawGreaterThanBalance,
    /// A claim targeted an entry that does not exist.
    CannotClaimWithoutDeposit,
    /// A claim was made while `claimable_reward` is zero.
    NothingToClaim,
}

impl ContractError {
    /// A short description of the error, in the words the protocol uses.
    pub fn describe(&self) -> &'static str {
        match self {
            ContractError::Unauthorized => "Unauthorized",
            ContractError::CannotWithdrawWithoutDeposit => {
                "You cannot withdraw UST when you have not deposited UST"
            },
            ContractError::CannotWithdrawBalanceZero => {
                "You cannot withdraw UST when your balance is zero"
            },
            ContractError::CannotWithdrawGreaterThanBalance => {
                "You cannot withdraw an amount of UST greater than your balance"
            },
            ContractError::CannotClaimWithoutDeposit => {
                "You cannot claim rewards without depositing UST"
            },
            ContractError::NothingToClaim => "There is no claimable reward to claim",
        }
    }
}

} // verus!
