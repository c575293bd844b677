//! The per-entry state transitions: deposit, withdraw (with the FIFO reward
//! unwind), and claim. Each transition is total over the inputs its contract
//! admits and returns the exact error its contract names otherwise.

use vstd::prelude::*;
use crate::effects::Effect;
use crate::error::ContractError;
use crate::ledger::{
    lemma_index_resolves, lemma_push_slot, lemma_update_slot, others_preserved, Ledger, LedgerSlot,
};
use crate::state::{
    lemma_sum_deposits_push, lemma_sum_rewards_push, lemma_sum_withdraws_push, sum_rewards,
    Deposit, Entry, Reward, State, Withdraw,
};
use crate::unwind::{
    lemma_rem_after_within, lemma_unwind_shape, lemma_unwind_sum, unwind, unwind_log,
};

verus! {

/// A mutating operation on an entry is open to the entry's own identity and
/// to the protocol owner, and to nobody else.
pub open spec fn authorized(s: State, sender: Seq<char>, addr: Seq<char>) -> bool {
    sender == addr || sender == s.owner@
}

/// How a deposit transforms an existing entry.
pub open spec fn deposited_from(e: Entry, e2: Entry, amount: u128, time: u64) -> bool {
    &&& e2.ust_deposited == e.ust_deposited + amount
    &&& e2.claimable_reward == e.claimable_reward
    &&& e2.averaged_reward_rate == e.averaged_reward_rate
    &&& e2.last_update_time == e.last_update_time
    &&& e2.ust_deposit_log@ == e.ust_deposit_log@.push(Deposit { amount, time })
    &&& e2.ust_withdraw_log@ == e.ust_withdraw_log@
    &&& e2.dynamic_reward_log@ == e.dynamic_reward_log@.push(
        Reward { amount, time, reward_tier: 0 },
    )
}

/// The entry a first deposit creates.
pub open spec fn fresh_entry(e2: Entry, amount: u128, time: u64) -> bool {
    &&& e2.ust_deposited == amount
    &&& e2.claimable_reward == 0
    &&& e2.averaged_reward_rate == 0
    &&& e2.last_update_time == time
    &&& e2.ust_deposit_log@ == seq![Deposit { amount, time }]
    &&& e2.ust_withdraw_log@ == Seq::<Withdraw>::empty()
    &&& e2.dynamic_reward_log@ == seq![Reward { amount, time, reward_tier: 0 }]
}

/// How a withdrawal transforms an entry it is covered by.
pub open spec fn withdrawn_from(e: Entry, e2: Entry, time: u64, amount: u128) -> bool {
    &&& e2.ust_deposited == e.ust_deposited - amount
    &&& e2.claimable_reward == e.claimable_reward
    &&& e2.averaged_reward_rate == e.averaged_reward_rate
    &&& e2.last_update_time == e.last_update_time
    &&& e2.ust_deposit_log@ == e.ust_deposit_log@
    &&& e2.ust_withdraw_log@ == e.ust_withdraw_log@.push(Withdraw { amount, time })
    &&& e2.dynamic_reward_log@ == unwind(e.dynamic_reward_log@, amount as int)
}

/// How a claim transforms an entry: the settled reward is zeroed, everything
/// else stays.
pub open spec fn claimed_from(e: Entry, e2: Entry) -> bool {
    &&& e2.claimable_reward == 0
    &&& e2.ust_deposited == e.ust_deposited
    &&& e2.averaged_reward_rate == e.averaged_reward_rate
    &&& e2.last_update_time == e.last_update_time
    &&& e2.ust_deposit_log@ == e.ust_deposit_log@
    &&& e2.ust_withdraw_log@ == e.ust_withdraw_log@
    &&& e2.dynamic_reward_log@ == e.dynamic_reward_log@
}

/// How a sale transforms an entry: the sold amount leaves the settled
/// reward balance, everything else stays.
pub open spec fn sold_from(e: Entry, e2: Entry, amount: u128) -> bool {
    &&& e2.claimable_reward == e.claimable_reward - amount
    &&& e2.ust_deposited == e.ust_deposited
    &&& e2.averaged_reward_rate == e.averaged_reward_rate
    &&& e2.last_update_time == e.last_update_time
    &&& e2.ust_deposit_log@ == e.ust_deposit_log@
    &&& e2.ust_withdraw_log@ == e.ust_withdraw_log@
    &&& e2.dynamic_reward_log@ == e.dynamic_reward_log@
}

/// The four tiers ask for strictly increasing minimum durations.
pub open spec fn tiers_ordered(s: State) -> bool {
    &&& s.tier0time < s.tier1time
    &&& s.tier1time < s.tier2time
    &&& s.tier2time < s.tier3time
}

/// Add a deposit to an existing entry: the principal grows by `amount`, the
/// deposit is recorded, and a fresh reward slice opens at tier 0.
pub fn some_deposit_helper(entry: Entry, amount: u128, time: u64) -> (e2: Entry)
    requires
        entry.wf(),
        entry.ust_deposited + amount <= u128::MAX,
    ensures
        e2.wf(),
        deposited_from(entry, e2, amount, time),
{
    let ghost orig = entry;
    let mut entry = entry;
    entry.ust_deposited = entry.ust_deposited + amount;
    let deposit = Deposit { amount, time };
    entry.ust_deposit_log.push(deposit);
    let reward = Reward { amount, time, reward_tier: 0 };
    entry.dynamic_reward_log.push(reward);
    proof {
        lemma_sum_deposits_push(orig.ust_deposit_log@, deposit);
        lemma_sum_rewards_push(orig.dynamic_reward_log@, reward);
    }
    entry
}

/// Open a fresh entry for a first deposit: the principal is the amount, the
/// logs hold the one deposit and its tier-0 reward slice, and nothing is
/// claimable yet.
pub fn none_deposit_helper(amount: u128, time: u64) -> (e2: Entry)
    ensures
        e2.wf(),
        fresh_entry(e2, amount, time),
{
    let deposit = Deposit { amount, time };
    let reward = Reward { amount, time, reward_tier: 0 };
    let mut ust_deposit_log: Vec<Deposit> = Vec::new();
    ust_deposit_log.push(deposit);
    let ust_withdraw_log: Vec<Withdraw> = Vec::new();
    let mut dynamic_reward_log: Vec<Reward> = Vec::new();
    dynamic_reward_log.push(reward);
    let entry = Entry {
        claimable_reward: 0,
        ust_deposited: amount,
        averaged_reward_rate: 0,
        last_update_time: time,
        ust_deposit_log,
        ust_withdraw_log,
        dynamic_reward_log,
    };
    proof {
        assert(entry.ust_deposit_log@ =~= seq![deposit]);
        assert(entry.dynamic_reward_log@ =~= seq![reward]);
        assert(entry.ust_withdraw_log@ =~= Seq::<Withdraw>::empty());
        assert(entry.ust_deposit_log@.drop_last() =~= Seq::<Deposit>::empty());
        assert(entry.dynamic_reward_log@.drop_last() =~= Seq::<Reward>::empty());
        assert(crate::state::sum_deposits(Seq::<Deposit>::empty()) == 0);
        assert(sum_rewards(Seq::<Reward>::empty()) == 0);
        assert(crate::state::sum_withdraws(entry.ust_withdraw_log@) == 0);
        assert(crate::state::sum_deposits(entry.ust_deposit_log@) == amount);
        assert(sum_rewards(entry.dynamic_reward_log@) == amount);
    }
    entry
}

/// Withdraw `amount` from an existing entry.
///
/// Fails with `CannotWithdrawBalanceZero` when the principal is zero, and
/// with `CannotWithdrawGreaterThanBalance` when `amount` exceeds it.
/// On success the principal shrinks by `amount`, the withdrawal is recorded,
/// and the reward log is unwound first-in-first-out, so that its amounts
/// still sum to the principal.
pub fn some_withdraw_helper(entry: Entry, time: u64, amount: u128) -> (res: Result<
    Entry,
    ContractError,
>)
    requires
        entry.wf(),
    ensures
        match res {
            Ok(e2) => {
                &&& entry.ust_deposited > 0
                &&& amount <= entry.ust_deposited
                &&& e2.wf()
                &&& withdrawn_from(entry, e2, time, amount)
            },
            Err(err) => {
                &&& (entry.ust_deposited == 0 || amount > entry.ust_deposited)
                &&& err == (if entry.ust_deposited == 0 {
                    ContractError::CannotWithdrawBalanceZero
                } else {
                    ContractError::CannotWithdrawGreaterThanBalance
                })
            },
        },
{
    if entry.ust_deposited == 0 {
        return Err(ContractError::CannotWithdrawBalanceZero);
    }
    if amount > entry.ust_deposited {
        return Err(ContractError::CannotWithdrawGreaterThanBalance);
    }
    let ghost orig = entry;
    let mut entry = entry;
    entry.ust_deposited = entry.ust_deposited - amount;
    let withdraw = Withdraw { amount, time };
    entry.ust_withdraw_log.push(withdraw);
    proof {
        lemma_sum_withdraws_push(orig.ust_withdraw_log@, withdraw);
    }
    unwind_log(&mut entry.dynamic_reward_log, amount);
    proof {
        let orig_log = orig.dynamic_reward_log@;
        lemma_unwind_sum(orig_log, amount as int);
        lemma_rem_after_within(orig_log, amount as int);
        lemma_unwind_shape(orig_log, amount as int);
        assert(sum_rewards(entry.dynamic_reward_log@) == entry.ust_deposited);
        assert forall|i: int|
            0 <= i < entry.dynamic_reward_log@.len() implies entry.dynamic_reward_log@[i].reward_tier
            <= 3 by {
            assert(entry.dynamic_reward_log@[i] == unwind(orig_log, amount as int)[i]);
            assert(unwind(orig_log, amount as int)[i].reward_tier == orig_log[i].reward_tier);
        }
    }
    Ok(entry)
}

/// Claim the settled reward of an existing entry.
///
/// Fails with `NothingToClaim` when nothing is claimable; otherwise zeroes
/// `claimable_reward` exactly once and reports the amount to pay out.
/// Safe to retry: a second claim finds a zero balance and is a failing
/// no-op, not a double payment.
pub fn some_claim_helper(entry: Entry) -> (res: Result<(Entry, u128), ContractError>)
    requires
        entry.wf(),
    ensures
        match res {
            Ok(pair) => {
                &&& entry.claimable_reward > 0
                &&& pair.1 == entry.claimable_reward
                &&& pair.0.wf()
                &&& claimed_from(entry, pair.0)
            },
            Err(err) => {
                &&& entry.claimable_reward == 0
                &&& err == ContractError::NothingToClaim
            },
        },
{
    if entry.claimable_reward == 0 {
        return Err(ContractError::NothingToClaim);
    }
    let paid = entry.claimable_reward;
    let mut entry = entry;
    entry.claimable_reward = 0;
    Ok((entry, paid))
}

/// The machine limits a deposit needs where it will go through: the entry's
/// principal and the protocol-wide total must both still fit a `u128`
/// afterwards.
pub open spec fn deposit_fits(
    s: State,
    l: Ledger,
    sender: Seq<char>,
    addr: Seq<char>,
    amount: u128,
) -> bool {
    authorized(s, sender, addr) ==> {
        &&& (l.has(addr) ==> l.spec_get(addr).ust_deposited + amount <= u128::MAX)
        &&& s.ust_deposited + amount <= u128::MAX
    }
}

/// Everything a deposit does, error cases included: the entry gains the
/// amount, and so does the protocol-wide running total.
pub open spec fn deposit_post(
    s: State,
    s1: State,
    l0: Ledger,
    l1: Ledger,
    sender: Seq<char>,
    addr: Seq<char>,
    time: u64,
    amount: u128,
    res: Result<Vec<Effect>, ContractError>,
) -> bool {
    if authorized(s, sender, addr) {
        &&& res matches Ok(effects) && effects@ == seq![Effect::DepositStable { amount }]
        &&& s1 == (State { ust_deposited: (s.ust_deposited + amount) as u128, ..s })
        &&& l1.wf()
        &&& l1.has(addr)
        &&& (if l0.has(addr) {
            deposited_from(l0.spec_get(addr), l1.spec_get(addr), amount, time)
        } else {
            fresh_entry(l1.spec_get(addr), amount, time)
        })
        &&& others_preserved(l0, l1, addr)
    } else {
        &&& res matches Err(e) && e == ContractError::Unauthorized
        &&& l1 == l0
        &&& s1 == s
    }
}

/// Deposit `amount` for the entry under `entry_address`.
///
/// Only the entry's own identity or the protocol owner may deposit. The
/// entry is created on first deposit, and the protocol-wide running total
/// grows with it. The one outbound effect instructs the money-market
/// adapter to convert the deposited amount.
pub fn try_deposit(
    state: &mut State,
    ledger: &mut Ledger,
    sender: &String,
    entry_address: &String,
    time: u64,
    amount: u128,
) -> (res: Result<Vec<Effect>, ContractError>)
    requires
        old(ledger).wf(),
        deposit_fits(*old(state), *old(ledger), sender@, entry_address@, amount),
    ensures
        deposit_post(
            *old(state),
            *final(state),
            *old(ledger),
            *final(ledger),
            sender@,
            entry_address@,
            time,
            amount,
            res,
        ),
{
    if !(*sender == *entry_address || *sender == state.owner) {
        return Err(ContractError::Unauthorized);
    }
    let ghost l0 = *ledger;
    match ledger.find_index(entry_address) {
        Some(i) => {
            proof {
                lemma_index_resolves(l0, i as int, entry_address@);
            }
            let slot = ledger.entries.remove(i);
            let new_entry = some_deposit_helper(slot.entry, amount, time);
            let new_slot = LedgerSlot { address: slot.address, entry: new_entry };
            ledger.entries.insert(i, new_slot);
            proof {
                assert(ledger.entries@ =~= l0.entries@.update(i as int, new_slot));
                lemma_update_slot(l0, *ledger, i as int, entry_address@);
                assert forall|j: int| 0 <= j < ledger.entries@.len() implies (#[trigger] ledger.entries@[j]).entry.wf() by {
                    if j != i as int {
                        assert(ledger.entries@[j] == l0.entries@[j]);
                    }
                }
            }
        },
        None => {
            let new_entry = none_deposit_helper(amount, time);
            let new_slot = LedgerSlot { address: entry_address.clone(), entry: new_entry };
            ledger.entries.push(new_slot);
            proof {
                lemma_push_slot(l0, *ledger, new_slot);
                assert forall|j: int| 0 <= j < ledger.entries@.len() implies (#[trigger] ledger.entries@[j]).entry.wf() by {
                    if j < l0.entries@.len() {
                        assert(ledger.entries@[j] == l0.entries@[j]);
                    } else {
                        assert(ledger.entries@[j] == new_slot);
                    }
                }
            }
        },
    }
    state.ust_deposited = state.ust_deposited + amount;
    let effects = vec![Effect::DepositStable { amount }];
    proof {
        assert(effects@ =~= seq![Effect::DepositStable { amount }]);
    }
    Ok(effects)
}

/// Where a withdrawal will go through, the protocol-wide total must cover
/// the debit, so it cannot underflow.
pub open spec fn withdraw_fits(
    s: State,
    l: Ledger,
    sender: Seq<char>,
    addr: Seq<char>,
    amount: u128,
) -> bool {
    authorized(s, sender, addr) && l.has(addr) && 0 < l.spec_get(addr).ust_deposited && amount
        <= l.spec_get(addr).ust_deposited ==> amount <= s.ust_deposited
}

/// Everything a withdrawal does, error cases included. The preconditions
/// fail in this order: authorization, entry existence, zero balance, balance
/// exceeded.
pub open spec fn withdraw_post(
    s: State,
    s1: State,
    l0: Ledger,
    l1: Ledger,
    sender: Seq<char>,
    addr: Seq<char>,
    time: u64,
    amount: u128,
    res: Result<Vec<Effect>, ContractError>,
) -> bool {
    if !authorized(s, sender, addr) {
        res matches Err(e) && e == ContractError::Unauthorized && l1 == l0 && s1 == s
    } else if !l0.has(addr) {
        res matches Err(e) && e == ContractError::CannotWithdrawWithoutDeposit && l1 == l0 && s1
            == s
    } else if l0.spec_get(addr).ust_deposited == 0 {
        res matches Err(e) && e == ContractError::CannotWithdrawBalanceZero && l1 == l0 && s1 == s
    } else if amount > l0.spec_get(addr).ust_deposited {
        res matches Err(e) && e == ContractError::CannotWithdrawGreaterThanBalance && l1 == l0
            && s1 == s
    } else {
        &&& res matches Ok(effects) && effects@.len() == 2 && effects@[0]
            == Effect::RedeemStable { amount } && (effects@[1] matches Effect::TransferStable {
            to,
            amount: a,
        } && to@ == addr && a == amount)
        &&& s1 == (State { ust_deposited: (s.ust_deposited - amount) as u128, ..s })
        &&& l1.wf()
        &&& l1.has(addr)
        &&& withdrawn_from(l0.spec_get(addr), l1.spec_get(addr), time, amount)
        &&& others_preserved(l0, l1, addr)
    }
}

/// Withdraw `amount` from the entry under `entry_address`.
///
/// Only the entry's own identity or the protocol owner may withdraw. On
/// success the principal and the protocol-wide running total are debited,
/// the withdrawal logged, and the reward log unwound oldest-first; the
/// effects redeem the amount from the money-market and pay it out to the
/// depositor.
pub fn try_withdraw(
    state: &mut State,
    ledger: &mut Ledger,
    sender: &String,
    entry_address: &String,
    time: u64,
    amount: u128,
) -> (res: Result<Vec<Effect>, ContractError>)
    requires
        old(ledger).wf(),
        withdraw_fits(*old(state), *old(ledger), sender@, entry_address@, amount),
    ensures
        withdraw_post(
            *old(state),
            *final(state),
            *old(ledger),
            *final(ledger),
            sender@,
            entry_address@,
            time,
            amount,
            res,
        ),
{
    if !(*sender == *entry_address || *sender == state.owner) {
        return Err(ContractError::Unauthorized);
    }
    let ghost l0 = *ledger;
    match ledger.find_index(entry_address) {
        Some(i) => {
            proof {
                lemma_index_resolves(l0, i as int, entry_address@);
            }
            if ledger.entries[i].entry.ust_deposited == 0 {
                return Err(ContractError::CannotWithdrawBalanceZero);
            }
            if amount > ledger.entries[i].entry.ust_deposited {
                return Err(ContractError::CannotWithdrawGreaterThanBalance);
            }
            let slot = ledger.entries.remove(i);
            match some_withdraw_helper(slot.entry, time, amount) {
                Ok(new_entry) => {
                    let new_slot = LedgerSlot { address: slot.address, entry: new_entry };
                    ledger.entries.insert(i, new_slot);
                    proof {
                        assert(ledger.entries@ =~= l0.entries@.update(i as int, new_slot));
                        lemma_update_slot(l0, *ledger, i as int, entry_address@);
                        assert forall|j: int|
                            0 <= j < ledger.entries@.len() implies (#[trigger] ledger.entries@[j]).entry.wf() by {
                            if j != i as int {
                                assert(ledger.entries@[j] == l0.entries@[j]);
                            }
                        }
                    }
                    state.ust_deposited = state.ust_deposited - amount;
                    let effects = vec![
                        Effect::RedeemStable { amount },
                        Effect::TransferStable { to: entry_address.clone(), amount },
                    ];
                    Ok(effects)
                },
                Err(err) => {
                    proof {
                        assert(false);
                    }
                    Err(err)
                },
            }
        },
        None => {
            Err(ContractError::CannotWithdrawWithoutDeposit)
        },
    }
}

/// Everything a claim does, error cases included. A claim with nothing
/// settled fails and changes nothing, so a retried claim can never pay
/// twice.
pub open spec fn claim_post(
    s: State,
    l0: Ledger,
    l1: Ledger,
    sender: Seq<char>,
    addr: Seq<char>,
    res: Result<Vec<Effect>, ContractError>,
) -> bool {
    if !authorized(s, sender, addr) {
        res matches Err(e) && e == ContractError::Unauthorized && l1 == l0
    } else if !l0.has(addr) {
        res matches Err(e) && e == ContractError::CannotClaimWithoutDeposit && l1 == l0
    } else if l0.spec_get(addr).claimable_reward == 0 {
        res matches Err(e) && e == ContractError::NothingToClaim && l1 == l0
    } else {
        &&& res matches Ok(effects) && effects@.len() == 1 && (effects@[0]
            matches Effect::TransferReward { to, amount } && to@ == addr && amount == l0.spec_get(
            addr,
        ).claimable_reward)
        &&& l1.wf()
        &&& l1.has(addr)
        &&& claimed_from(l0.spec_get(addr), l1.spec_get(addr))
        &&& others_preserved(l0, l1, addr)
    }
}

/// Claim the settled reward of the entry under `entry_address`.
///
/// Only the entry's own identity or the protocol owner may claim. On
/// success `claimable_reward` is zeroed exactly once and the one effect pays
/// the previously-held amount out to the depositor.
pub fn try_claim(
    state: &State,
    ledger: &mut Ledger,
    sender: &String,
    entry_address: &String,
) -> (res: Result<Vec<Effect>, ContractError>)
    requires
        old(ledger).wf(),
    ensures
        claim_post(*state, *old(ledger), *final(ledger), sender@, entry_address@, res),
{
    if !(*sender == *entry_address || *sender == state.owner) {
        return Err(ContractError::Unauthorized);
    }
    let ghost l0 = *ledger;
    match ledger.find_index(entry_address) {
        Some(i) => {
            proof {
                lemma_index_resolves(l0, i as int, entry_address@);
            }
            if ledger.entries[i].entry.claimable_reward == 0 {
                return Err(ContractError::NothingToClaim);
            }
            let slot = ledger.entries.remove(i);
            match some_claim_helper(slot.entry) {
                Ok((new_entry, paid)) => {
                    let new_slot = LedgerSlot { address: slot.address, entry: new_entry };
                    ledger.entries.insert(i, new_slot);
                    proof {
                        assert(ledger.entries@ =~= l0.entries@.update(i as int, new_slot));
                        lemma_update_slot(l0, *ledger, i as int, entry_address@);
                        assert forall|j: int|
                            0 <= j < ledger.entries@.len() implies (#[trigger] ledger.entries@[j]).entry.wf() by {
                            if j != i as int {
                                assert(ledger.entries@[j] == l0.entries@[j]);
                            }
                        }
                    }
                    let effects = vec![
                        Effect::TransferReward { to: entry_address.clone(), amount: paid },
                    ];
                    Ok(effects)
                },
                Err(err) => {
                    proof {
                        assert(false);
                    }
                    Err(err)
                },
            }
        },
        None => {
            Err(ContractError::CannotClaimWithoutDeposit)
        },
    }
}

/// The machine limit a sale needs where it will go through: the stable
/// payout at the fixed sell-back price must fit a `u128`.
pub open spec fn sell_fits(
    s: State,
    l: Ledger,
    sender: Seq<char>,
    addr: Seq<char>,
    amount: u128,
) -> bool {
    authorized(s, sender, addr) && l.has(addr) && amount <= l.spec_get(addr).claimable_reward
        ==> amount * s.sellback_price <= u128::MAX
}

/// Everything a sale does, error cases included. The sale draws on the
/// entry's settled reward balance — with the claim, the only way that
/// balance ever decreases — so its failures mirror the claim's: no entry,
/// or a balance too small to cover the sale.
pub open spec fn sell_post(
    s: State,
    l0: Ledger,
    l1: Ledger,
    sender: Seq<char>,
    addr: Seq<char>,
    amount: u128,
    res: Result<Vec<Effect>, ContractError>,
) -> bool {
    if !authorized(s, sender, addr) {
        res matches Err(e) && e == ContractError::Unauthorized && l1 == l0
    } else if !l0.has(addr) {
        res matches Err(e) && e == ContractError::CannotClaimWithoutDeposit && l1 == l0
    } else if amount > l0.spec_get(addr).claimable_reward {
        res matches Err(e) && e == ContractError::NothingToClaim && l1 == l0
    } else {
        &&& res matches Ok(effects) && effects@.len() == 2 && (effects@[0]
            matches Effect::TransferStable { to, amount: a } && to@ == addr && a == amount
            * s.sellback_price) && (effects@[1] matches Effect::CollectReward {
            from,
            amount: a,
        } && from@ == addr && a == amount)
        &&& l1.wf()
        &&& l1.has(addr)
        &&& sold_from(l0.spec_get(addr), l1.spec_get(addr), amount)
        &&& others_preserved(l0, l1, addr)
    }
}

/// Sell `amount` of settled reward back to the protocol at the fixed
/// sell-back price: the amount leaves the entry's `claimable_reward`
/// exactly once, the seller is paid `amount` times `sellback_price` in
/// stable value, and the reward tokens are collected back.
///
/// Only the entry's own identity or the protocol owner may sell.
pub fn try_sell(
    state: &State,
    ledger: &mut Ledger,
    sender: &String,
    entry_address: &String,
    amount: u128,
) -> (res: Result<Vec<Effect>, ContractError>)
    requires
        old(ledger).wf(),
        sell_fits(*state, *old(ledger), sender@, entry_address@, amount),
    ensures
        sell_post(
            *state,
            *old(ledger),
            *final(ledger),
            sender@,
            entry_address@,
            amount,
            res,
        ),
{
    if !(*sender == *entry_address || *sender == state.owner) {
        return Err(ContractError::Unauthorized);
    }
    let ghost l0 = *ledger;
    match ledger.find_index(entry_address) {
        Some(i) => {
            proof {
                lemma_index_resolves(l0, i as int, entry_address@);
            }
            if amount > ledger.entries[i].entry.claimable_reward {
                return Err(ContractError::NothingToClaim);
            }
            let slot = ledger.entries.remove(i);
            let mut entry = slot.entry;
            entry.claimable_reward = entry.claimable_reward - amount;
            let new_slot = LedgerSlot { address: slot.address, entry };
            ledger.entries.insert(i, new_slot);
            proof {
                assert(ledger.entries@ =~= l0.entries@.update(i as int, new_slot));
                lemma_update_slot(l0, *ledger, i as int, entry_address@);
                assert forall|j: int|
                    0 <= j < ledger.entries@.len() implies (#[trigger] ledger.entries@[j]).entry.wf() by {
                    if j != i as int {
                        assert(ledger.entries@[j] == l0.entries@[j]);
                    }
                }
            }
            let stable = amount * (state.sellback_price as u128);
            let effects = vec![
                Effect::TransferStable { to: entry_address.clone(), amount: stable },
                Effect::CollectReward { from: entry_address.clone(), amount },
            ];
            Ok(effects)
        },
        None => {
            Err(ContractError::CannotClaimWithoutDeposit)
        },
    }
}

/// The machine limits a batch update needs, for every entry in the store.
pub open spec fn ledger_fits(s: State, l: Ledger, now: u64) -> bool {
    forall|i: int|
        0 <= i < l.entries@.len() ==> crate::update::update_fits(
            s,
            (#[trigger] l.entries@[i]).entry,
            now,
        )
}

/// Everything the batch update does: only the owner may run it; every entry
/// is re-derived in place under its address, per the tier-promotion and
/// accrual rules; no outbound effect is emitted.
pub open spec fn update_entries_post(
    s: State,
    l0: Ledger,
    l1: Ledger,
    sender: Seq<char>,
    now: u64,
    res: Result<Vec<Effect>, ContractError>,
) -> bool {
    if sender == s.owner@ {
        &&& res matches Ok(effects) && effects@ == Seq::<Effect>::empty()
        &&& l1.wf()
        &&& l1.entries@.len() == l0.entries@.len()
        &&& forall|i: int|
            0 <= i < l0.entries@.len() ==> (#[trigger] l1.entries@[i]).address@
                == l0.entries@[i].address@ && crate::update::entry_updated(
                s,
                l0.entries@[i].entry,
                l1.entries@[i].entry,
                now,
            )
    } else {
        res matches Err(e) && e == ContractError::Unauthorized && l1 == l0
    }
}

/// Run one batch update pass over every entry in the store.
///
/// Only the protocol owner may run it. Each entry's slices are promoted and
/// settled at `now`; running it again at the same `now` changes nothing,
/// because each entry's accrual checkpoint has caught up.
pub fn try_update_entries(
    state: &State,
    ledger: &mut Ledger,
    sender: &String,
    now: u64,
) -> (res: Result<Vec<Effect>, ContractError>)
    requires
        old(ledger).wf(),
        sender@ == state.owner@ ==> ledger_fits(*state, *old(ledger), now),
    ensures
        update_entries_post(*state, *old(ledger), *final(ledger), sender@, now, res),
{
    if !(*sender == state.owner) {
        return Err(ContractError::Unauthorized);
    }
    let ghost l0 = *ledger;
    let n: usize = ledger.entries.len();
    let mut new_entries: Vec<LedgerSlot> = Vec::new();
    let mut i: usize = 0;
    while i < n
        invariant
            0 <= i <= n,
            n == l0.entries@.len(),
            ledger.entries@ == l0.entries@,
            l0.wf(),
            ledger_fits(*state, l0, now),
            new_entries@.len() == i,
            forall|j: int|
                0 <= j < i ==> (#[trigger] new_entries@[j]).address@ == l0.entries@[j].address@
                    && crate::update::entry_updated(
                    *state,
                    l0.entries@[j].entry,
                    new_entries@[j].entry,
                    now,
                ) && new_entries@[j].entry.wf(),
        decreases n - i,
    {
        let addr = ledger.entries[i].address.clone();
        let e2 = crate::update::update_entry_rewards(state, &ledger.entries[i].entry, now);
        new_entries.push(LedgerSlot { address: addr, entry: e2 });
        i = i + 1;
    }
    ledger.entries = new_entries;
    proof {
        assert forall|p: int, q: int|
            0 <= p < ledger.entries@.len() && 0 <= q < ledger.entries@.len() && p
                != q implies ledger.entries@[p].address@ != ledger.entries@[q].address@ by {
            assert(ledger.entries@[p].address@ == l0.entries@[p].address@);
            assert(ledger.entries@[q].address@ == l0.entries@[q].address@);
        }
    }
    let effects: Vec<Effect> = Vec::new();
    proof {
        assert(effects@ =~= Seq::<Effect>::empty());
    }
    Ok(effects)
}

/// Everything a yield cashout does. `position_value` is the current stable
/// value of the protocol's wrapped money-market position, as the boundary
/// reads it; whatever that reading is, the yield is the part of it above
/// the deposited principal, redeemed and paid out to the owner.
pub open spec fn cashout_post(
    s: State,
    sender: Seq<char>,
    position_value: u128,
    res: Result<Vec<Effect>, ContractError>,
) -> bool {
    if sender == s.owner@ {
        if position_value > s.ust_deposited {
            res matches Ok(effects) && effects@.len() == 2 && effects@[0]
                == (Effect::RedeemStable { amount: (position_value - s.ust_deposited) as u128 })
                && (effects@[1] matches Effect::TransferStable { to, amount } && to@ == s.owner@
                && amount == position_value - s.ust_deposited)
        } else {
            res matches Ok(effects) && effects@ == Seq::<Effect>::empty()
        }
    } else {
        res matches Err(e) && e == ContractError::Unauthorized
    }
}

/// Cash the protocol's accumulated yield out to the owner.
///
/// Only the owner may call it; the ledger is not involved. `position_value`
/// is the wrapped position's current stable value, read outside the ledger;
/// the yield is whatever stands above the deposited principal, and a
/// position at or below the principal yields nothing.
pub fn try_cashout_yield(state: &State, sender: &String, position_value: u128) -> (res: Result<
    Vec<Effect>,
    ContractError,
>)
    ensures
        cashout_post(*state, sender@, position_value, res),
{
    if !(*sender == state.owner) {
        return Err(ContractError::Unauthorized);
    }
    if position_value > state.ust_deposited {
        let yield_amount = position_value - state.ust_deposited;
        let effects = vec![
            Effect::RedeemStable { amount: yield_amount },
            Effect::TransferStable { to: state.owner.clone(), amount: yield_amount },
        ];
        Ok(effects)
    } else {
        let effects: Vec<Effect> = Vec::new();
        proof {
            assert(effects@ =~= Seq::<Effect>::empty());
        }
        Ok(effects)
    }
}

/// Point the treasury-wallet role at a new identity. Owner only.
pub fn try_set_treasury_wallet(state: &mut State, sender: &String, address: String) -> (res:
    Result<(), ContractError>)
    ensures
        sender@ == old(state).owner@ ==> res is Ok && *final(state) == (State {
            treasury_wallet: address,
            ..*old(state)
        }),
        sender@ != old(state).owner@ ==> (res matches Err(e) && e == ContractError::Unauthorized
            && *final(state) == *old(state)),
{
    if !(*sender == state.owner) {
        return Err(ContractError::Unauthorized);
    }
    state.treasury_wallet = address;
    Ok(())
}

/// Point the reward-contract role at a new identity. Owner only.
pub fn try_set_reward_contract(state: &mut State, sender: &String, address: String) -> (res:
    Result<(), ContractError>)
    ensures
        sender@ == old(state).owner@ ==> res is Ok && *final(state) == (State {
            reward_contract: address,
            ..*old(state)
        }),
        sender@ != old(state).owner@ ==> (res matches Err(e) && e == ContractError::Unauthorized
            && *final(state) == *old(state)),
{
    if !(*sender == state.owner) {
        return Err(ContractError::Unauthorized);
    }
    state.reward_contract = address;
    Ok(())
}

/// The state after one tier's `(rate, minimum elapsed seconds)` pair is
/// replaced (meaningful for tier indices 0 through 3).
pub open spec fn with_tier(s: State, data: (u8, u64, u64)) -> State {
    if data.0 == 0 {
        State { tier0rate: data.1, tier0time: data.2, ..s }
    } else if data.0 == 1 {
        State { tier1rate: data.1, tier1time: data.2, ..s }
    } else if data.0 == 2 {
        State { tier2rate: data.1, tier2time: data.2, ..s }
    } else {
        State { tier3rate: data.1, tier3time: data.2, ..s }
    }
}

/// Replace one reward tier's `(rate, minimum elapsed seconds)` pair.
///
/// Owner only. A tier index above 3 is refused, and so is a duration that
/// would break the strictly increasing order of the four tiers' minimum
/// durations: the tier table keeps that order through every update.
pub fn try_set_tier_data(state: &mut State, sender: &String, data: (u8, u64, u64)) -> (res: Result<
    (),
    ContractError,
>)
    ensures
        sender@ != old(state).owner@ ==> (res matches Err(e) && e == ContractError::Unauthorized
            && *final(state) == *old(state)),
        sender@ == old(state).owner@ && (data.0 > 3 || !tiers_ordered(with_tier(*old(state), data)))
            ==> (res matches Err(e) && e == ContractError::Unauthorized && *final(state) == *old(
            state,
        )),
        sender@ == old(state).owner@ && data.0 <= 3 && tiers_ordered(with_tier(*old(state), data))
            ==> res is Ok && *final(state) == with_tier(*old(state), data),
{
    if !(*sender == state.owner) {
        return Err(ContractError::Unauthorized);
    }
    if data.0 > 3 {
        return Err(ContractError::Unauthorized);
    }
    let t0: u64 = if data.0 == 0 { data.2 } else { state.tier0time };
    let t1: u64 = if data.0 == 1 { data.2 } else { state.tier1time };
    let t2: u64 = if data.0 == 2 { data.2 } else { state.tier2time };
    let t3: u64 = if data.0 == 3 { data.2 } else { state.tier3time };
    if !(t0 < t1 && t1 < t2 && t2 < t3) {
        return Err(ContractError::Unauthorized);
    }
    if data.0 == 0 {
        state.tier0rate = data.1;
        state.tier0time = data.2;
    } else if data.0 == 1 {
        state.tier1rate = data.1;
        state.tier1time = data.2;
    } else if data.0 == 2 {
        state.tier2rate = data.1;
        state.tier2time = data.2;
    } else {
        state.tier3rate = data.1;
        state.tier3time = data.2;
    }
    Ok(())
}

/// Point the ledger at a new money-market endpoint. Owner only.
pub fn try_set_anc_market(state: &mut State, sender: &String, address: String) -> (res: Result<
    (),
    ContractError,
>)
    ensures
        sender@ == old(state).owner@ ==> res is Ok && *final(state) == (State {
            anc_market: address,
            ..*old(state)
        }),
        sender@ != old(state).owner@ ==> (res matches Err(e) && e == ContractError::Unauthorized
            && *final(state) == *old(state)),
{
    if !(*sender == state.owner) {
        return Err(ContractError::Unauthorized);
    }
    state.anc_market = address;
    Ok(())
}

} // verus!
