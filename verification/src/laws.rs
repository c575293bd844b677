//! The ledger's laws, proved once and for all histories: the entry
//! invariants survive every sequence of operations, tiers only ever climb,
//! and a repeated batch update at the same time is a no-op.

use vstd::prelude::*;
use vstd::arithmetic::mul::lemma_mul_basics;
use crate::execute::{claimed_from, deposited_from, fresh_entry, sold_from, withdrawn_from};
use crate::state::{Entry, Reward, State};
use crate::unwind::{lemma_rem_after_within, lemma_unwind_shape, lemma_unwind_sum};
use crate::update::{
    accrual_start, elapsed_since, entry_updated, promote_slice, promoted_log, promoted_tier,
    rate_of, slice_accrual, tier_max, total_accrual, updated_rate, weighted_rate_sum,
};

verus! {

/// One step of an entry's life: the operations that touch a single entry.
/// A failed operation leaves the entry as it was, so only the successful
/// shapes appear here.
pub enum EntryOp {
    /// A deposit of `amount` at `time`.
    Deposit { amount: u128, time: u64 },
    /// A covered withdrawal of `amount` at `time`.
    Withdraw { amount: u128, time: u64 },
    /// A successful claim.
    Claim,
    /// A covered sale of `amount` of settled reward.
    Sell { amount: u128 },
    /// A batch update pass at `now`.
    Update { now: u64 },
}

/// The step relation: `e2` is what the operation leaves of `e`. For a
/// withdrawal the relation holds only when the amount is covered, as the
/// withdrawal processor enforces.
pub open spec fn entry_step(s: State, e: Entry, e2: Entry, op: EntryOp) -> bool {
    match op {
        EntryOp::Deposit { amount, time } => {
            &&& e.ust_deposited + amount <= u128::MAX
            &&& deposited_from(e, e2, amount, time)
        },
        EntryOp::Withdraw { amount, time } => {
            &&& amount <= e.ust_deposited
            &&& withdrawn_from(e, e2, time, amount)
        },
        EntryOp::Claim => claimed_from(e, e2),
        EntryOp::Sell { amount } => {
            &&& amount <= e.claimable_reward
            &&& sold_from(e, e2, amount)
        },
        EntryOp::Update { now } => entry_updated(s, e, e2, now),
    }
}

/// A deposit preserves the entry invariants.
pub proof fn lemma_deposit_preserves_wf(e: Entry, e2: Entry, amount: u128, time: u64)
    requires
        e.wf(),
        deposited_from(e, e2, amount, time),
    ensures
        e2.wf(),
{
    crate::state::lemma_sum_deposits_push(e.ust_deposit_log@, crate::state::Deposit { amount, time });
    crate::state::lemma_sum_rewards_push(
        e.dynamic_reward_log@,
        Reward { amount, time, reward_tier: 0 },
    );
    assert forall|i: int|
        0 <= i < e2.dynamic_reward_log@.len() implies e2.dynamic_reward_log@[i].reward_tier
        <= 3 by {
        if i < e.dynamic_reward_log@.len() {
            assert(e2.dynamic_reward_log@[i] == e.dynamic_reward_log@[i]);
        } else {
            assert(e2.dynamic_reward_log@[i] == (Reward { amount, time, reward_tier: 0 }));
        }
    }
}

/// A covered withdrawal preserves the entry invariants.
pub proof fn lemma_withdraw_preserves_wf(e: Entry, e2: Entry, amount: u128, time: u64)
    requires
        e.wf(),
        amount <= e.ust_deposited,
        withdrawn_from(e, e2, time, amount),
    ensures
        e2.wf(),
{
    crate::state::lemma_sum_withdraws_push(
        e.ust_withdraw_log@,
        crate::state::Withdraw { amount, time },
    );
    let log = e.dynamic_reward_log@;
    lemma_unwind_sum(log, amount as int);
    lemma_rem_after_within(log, amount as int);
    lemma_unwind_shape(log, amount as int);
    assert forall|i: int|
        0 <= i < e2.dynamic_reward_log@.len() implies e2.dynamic_reward_log@[i].reward_tier
        <= 3 by {
        assert(e2.dynamic_reward_log@[i] == crate::unwind::unwind(log, amount as int)[i]);
    }
}

/// A claim preserves the entry invariants.
pub proof fn lemma_claim_preserves_wf(e: Entry, e2: Entry)
    requires
        e.wf(),
        claimed_from(e, e2),
    ensures
        e2.wf(),
{
}

/// A covered sale preserves the entry invariants: it touches only the
/// settled reward balance.
pub proof fn lemma_sell_preserves_wf(e: Entry, e2: Entry, amount: u128)
    requires
        e.wf(),
        sold_from(e, e2, amount),
    ensures
        e2.wf(),
{
}

/// A batch update preserves the entry invariants.
pub proof fn lemma_update_preserves_wf(s: State, e: Entry, e2: Entry, now: u64)
    requires
        e.wf(),
        entry_updated(s, e, e2, now),
    ensures
        e2.wf(),
{
    crate::update::lemma_promoted_log_sum(s, e.dynamic_reward_log@, now);
    assert forall|i: int|
        0 <= i < e2.dynamic_reward_log@.len() implies e2.dynamic_reward_log@[i].reward_tier
        <= 3 by {
        assert(e2.dynamic_reward_log@[i] == promote_slice(s, e.dynamic_reward_log@[i], now));
    }
}

/// Every step of an entry's life preserves the entry invariants.
pub proof fn lemma_step_preserves_wf(s: State, e: Entry, e2: Entry, op: EntryOp)
    requires
        e.wf(),
        entry_step(s, e, e2, op),
    ensures
        e2.wf(),
{
    match op {
        EntryOp::Deposit { amount, time } => lemma_deposit_preserves_wf(e, e2, amount, time),
        EntryOp::Withdraw { amount, time } => lemma_withdraw_preserves_wf(e, e2, amount, time),
        EntryOp::Claim => lemma_claim_preserves_wf(e, e2),
        EntryOp::Sell { amount } => lemma_sell_preserves_wf(e, e2, amount),
        EntryOp::Update { now } => lemma_update_preserves_wf(s, e, e2, now),
    }
}

/// Invariant preservation and conservation, for all histories: along any
/// chain of entry states linked by deposit, withdraw, claim, sale and
/// batch-update steps, every state keeps the reward log's amounts summing
/// to the principal, and keeps the principal equal to total deposits minus
/// total withdrawals.
pub proof fn lemma_history_preserves_invariants(s: State, chain: Seq<Entry>, ops: Seq<EntryOp>)
    requires
        chain.len() == ops.len() + 1,
        chain[0].wf(),
        forall|i: int| 0 <= i < ops.len() ==> entry_step(s, chain[i], chain[i + 1], #[trigger] ops[i]),
    ensures
        forall|i: int| 0 <= i < chain.len() ==> (#[trigger] chain[i]).wf(),
    decreases ops.len(),
{
    if ops.len() > 0 {
        let n = ops.len() as int;
        let c = chain.drop_last();
        let o = ops.drop_last();
        assert(c[0] == chain[0]);
        assert forall|i: int| 0 <= i < o.len() implies entry_step(
            s,
            c[i],
            c[i + 1],
            #[trigger] o[i],
        ) by {
            assert(o[i] == ops[i]);
            assert(c[i] == chain[i]);
            assert(c[i + 1] == chain[i + 1]);
        }
        lemma_history_preserves_invariants(s, c, o);
        assert(c[n - 1] == chain[n - 1]);
        assert(chain[n - 1].wf());
        assert(entry_step(s, chain[n - 1], chain[n], ops[n - 1]));
        lemma_step_preserves_wf(s, chain[n - 1], chain[n], ops[n - 1]);
        assert forall|i: int| 0 <= i < chain.len() implies (#[trigger] chain[i]).wf() by {
            if i < n {
                assert(c[i] == chain[i]);
                assert(c[i].wf());
            }
        }
    }
}

/// One promotion pass never lowers any slice's tier.
pub proof fn lemma_promotion_monotone(s: State, log: Seq<Reward>, now: u64)
    ensures
        promoted_log(s, log, now).len() == log.len(),
        forall|i: int|
            #![trigger promoted_log(s, log, now)[i]]
            0 <= i < log.len() ==> promoted_log(s, log, now)[i].reward_tier
                >= log[i].reward_tier,
{
    assert forall|i: int| 0 <= i < log.len() implies promoted_log(s, log, now)[i].reward_tier
        >= log[i].reward_tier by {
        assert(promoted_log(s, log, now)[i] == promote_slice(s, log[i], now));
    }
}

/// The reward log after a whole series of promotion passes, one per time in
/// `times`, oldest pass first.
pub open spec fn promoted_many(s: State, log: Seq<Reward>, times: Seq<u64>) -> Seq<Reward>
    decreases times.len(),
{
    if times.len() == 0 {
        log
    } else {
        promoted_log(s, promoted_many(s, log, times.drop_last()), times.last())
    }
}

/// Monotonic tiers, for any elapsed-time sequence: across any series of
/// batch-update passes, no slice's tier ever decreases.
pub proof fn lemma_tiers_never_demote(s: State, log: Seq<Reward>, times: Seq<u64>)
    ensures
        promoted_many(s, log, times).len() == log.len(),
        forall|i: int|
            #![trigger promoted_many(s, log, times)[i]]
            0 <= i < log.len() ==> promoted_many(s, log, times)[i].reward_tier
                >= log[i].reward_tier,
    decreases times.len(),
{
    if times.len() > 0 {
        lemma_tiers_never_demote(s, log, times.drop_last());
        let mid = promoted_many(s, log, times.drop_last());
        lemma_promotion_monotone(s, mid, times.last());
        assert forall|i: int| 0 <= i < log.len() implies promoted_many(s, log, times)[i].reward_tier
            >= log[i].reward_tier by {
            assert(promoted_many(s, log, times)[i] == promoted_log(s, mid, times.last())[i]);
            assert(promoted_log(s, mid, times.last())[i].reward_tier >= mid[i].reward_tier);
        }
    }
}

/// A slice the batch update has already promoted at `now` is promoted to the
/// same tier by a second pass at `now`.
pub proof fn lemma_promote_slice_idempotent(s: State, r: Reward, now: u64)
    ensures
        promote_slice(s, promote_slice(s, r, now), now) == promote_slice(s, r, now),
{
}

/// Promotion at a fixed time is idempotent over the whole log.
pub proof fn lemma_promoted_log_idempotent(s: State, log: Seq<Reward>, now: u64)
    ensures
        promoted_log(s, promoted_log(s, log, now), now) == promoted_log(s, log, now),
{
    let once = promoted_log(s, log, now);
    assert forall|i: int| 0 <= i < once.len() implies promoted_log(s, once, now)[i] == once[i] by {
        assert(once[i] == promote_slice(s, log[i], now));
        assert(promoted_log(s, once, now)[i] == promote_slice(s, once[i], now));
        lemma_promote_slice_idempotent(s, log[i], now);
    }
    assert(promoted_log(s, once, now) =~= once);
}

/// With the accrual checkpoint at or past `now`, nothing accrues at `now`.
pub proof fn lemma_no_accrual_after_checkpoint(
    s: State,
    checkpoint: u64,
    log: Seq<Reward>,
    now: u64,
)
    requires
        checkpoint >= now,
    ensures
        total_accrual(s, checkpoint, log, now) == 0,
    decreases log.len(),
{
    if log.len() > 0 {
        lemma_no_accrual_after_checkpoint(s, checkpoint, log.drop_last(), now);
        let r = log.last();
        if r.amount != 0 {
            assert(accrual_start(r, checkpoint) >= now);
            assert(elapsed_since(accrual_start(r, checkpoint), now) == 0);
            lemma_mul_basics(rate_of(s, promoted_tier(s, r, now)) * r.amount);
        }
    }
}

/// Promotion does not change the weighted-rate numerator: each slice's
/// amount is kept, and a promoted slice promotes to the same tier again.
pub proof fn lemma_weighted_sum_stable(s: State, log: Seq<Reward>, now: u64)
    ensures
        weighted_rate_sum(s, promoted_log(s, log, now), now) == weighted_rate_sum(s, log, now),
    decreases log.len(),
{
    if log.len() > 0 {
        lemma_weighted_sum_stable(s, log.drop_last(), now);
        let once = promoted_log(s, log, now);
        assert(once.drop_last() =~= promoted_log(s, log.drop_last(), now));
        let r = log.last();
        let r2 = once.last();
        assert(r2 == promote_slice(s, r, now));
        if r.amount != 0 {
            assert(promoted_tier(s, r2, now) == promoted_tier(s, r, now));
        } else {
            assert(r2 == r);
        }
    }
}

/// Idempotent batch update: a second update pass at the same time changes
/// nothing at all — in particular it settles no further reward into
/// `claimable_reward`.
pub proof fn lemma_batch_update_idempotent(s: State, e: Entry, e2: Entry, e3: Entry, now: u64)
    requires
        entry_updated(s, e, e2, now),
        entry_updated(s, e2, e3, now),
    ensures
        e3.claimable_reward == e2.claimable_reward,
        e3.averaged_reward_rate == e2.averaged_reward_rate,
        e3.last_update_time == e2.last_update_time,
        e3.dynamic_reward_log@ == e2.dynamic_reward_log@,
        e3.ust_deposited == e2.ust_deposited,
        e3.ust_deposit_log@ == e2.ust_deposit_log@,
        e3.ust_withdraw_log@ == e2.ust_withdraw_log@,
{
    lemma_no_accrual_after_checkpoint(s, e2.last_update_time, e2.dynamic_reward_log@, now);
    lemma_promoted_log_idempotent(s, e.dynamic_reward_log@, now);
    lemma_weighted_sum_stable(s, e.dynamic_reward_log@, now);
    assert(updated_rate(s, e2, now) == updated_rate(s, e, now));
}

} // verus!
