//! The tier-promotion and reward-accrual engine behind the batch update.
//!
//! For every non-zero reward slice it promotes the slice to the highest tier
//! whose minimum duration has elapsed (tiers never demote), settles the
//! reward earned since the entry's accrual checkpoint into
//! `claimable_reward`, recomputes the amount-weighted mean of the active
//! slices' rates, and advances the checkpoint.

use vstd::prelude::*;
use vstd::arithmetic::mul::{lemma_mul_inequality, lemma_mul_nonnegative};
use vstd::arithmetic::div_mod::{lemma_div_is_ordered, lemma_div_multiples_vanish};
use crate::state::{sum_rewards, Entry, Reward, State};

verus! {

/// The rate configured for a tier; any tier above the highest earns the
/// highest configured rate.
pub open spec fn rate_of(s: State, tier: u8) -> u64 {
    if tier == 0 {
        s.tier0rate
    } else if tier == 1 {
        s.tier1rate
    } else if tier == 2 {
        s.tier2rate
    } else {
        s.tier3rate
    }
}

/// The highest tier whose minimum elapsed duration is covered by `elapsed`;
/// tier 0 when none is.
pub open spec fn tier_for(s: State, elapsed: u64) -> u8 {
    if elapsed >= s.tier3time {
        3
    } else if elapsed >= s.tier2time {
        2
    } else if elapsed >= s.tier1time {
        1
    } else {
        0
    }
}

/// Seconds from `t` to `now`, zero when `t` lies in the future.
pub open spec fn elapsed_since(t: u64, now: u64) -> u64 {
    if now >= t {
        (now - t) as u64
    } else {
        0
    }
}

/// The larger of two tiers.
pub open spec fn tier_max(a: u8, b: u8) -> u8 {
    if a >= b {
        a
    } else {
        b
    }
}

/// The tier a slice holds after a batch update at `now`: promoted to the
/// highest tier its age has reached, never demoted.
pub open spec fn promoted_tier(s: State, r: Reward, now: u64) -> u8 {
    tier_max(r.reward_tier, tier_for(s, elapsed_since(r.time, now)))
}

/// A slice after tier promotion at `now`. A consumed (zero-amount) slice is
/// a historical placeholder and is left untouched.
pub open spec fn promote_slice(s: State, r: Reward, now: u64) -> Reward {
    if r.amount == 0 {
        r
    } else {
        Reward { amount: r.amount, time: r.time, reward_tier: promoted_tier(s, r, now) }
    }
}

/// The whole reward log after tier promotion at `now`.
pub open spec fn promoted_log(s: State, log: Seq<Reward>, now: u64) -> Seq<Reward> {
    log.map_values(|r: Reward| promote_slice(s, r, now))
}

/// The moment a slice last settled reward: its own start or the entry's
/// accrual checkpoint, whichever is later.
pub open spec fn accrual_start(r: Reward, checkpoint: u64) -> u64 {
    if r.time >= checkpoint {
        r.time
    } else {
        checkpoint
    }
}

/// Reward earned by one slice between the accrual checkpoint and `now`:
/// the promoted tier's rate, times the slice's amount, times the elapsed
/// seconds not yet settled. A consumed slice earns nothing.
pub open spec fn slice_accrual(s: State, checkpoint: u64, r: Reward, now: u64) -> int {
    if r.amount == 0 {
        0
    } else {
        rate_of(s, promoted_tier(s, r, now)) * r.amount * elapsed_since(
            accrual_start(r, checkpoint),
            now,
        )
    }
}

/// Reward earned by a whole log between the accrual checkpoint and `now`.
pub open spec fn total_accrual(s: State, checkpoint: u64, log: Seq<Reward>, now: u64) -> int
    decreases log.len(),
{
    if log.len() == 0 {
        0
    } else {
        total_accrual(s, checkpoint, log.drop_last(), now) + slice_accrual(
            s,
            checkpoint,
            log.last(),
            now,
        )
    }
}

/// Sum of amount-weighted promoted rates over a log: the numerator of the
/// amount-weighted mean rate.
pub open spec fn weighted_rate_sum(s: State, log: Seq<Reward>, now: u64) -> int
    decreases log.len(),
{
    if log.len() == 0 {
        0
    } else {
        weighted_rate_sum(s, log.drop_last(), now) + log.last().amount * rate_of(
            s,
            promoted_tier(s, log.last(), now),
        )
    }
}

/// The amount-weighted mean of the active slices' promoted rates; zero for
/// an entry with no principal.
pub open spec fn updated_rate(s: State, e: Entry, now: u64) -> int {
    if e.ust_deposited == 0 {
        0
    } else {
        weighted_rate_sum(s, e.dynamic_reward_log@, now) / e.ust_deposited as int
    }
}

/// `claimable_reward` after settling the log's accrual.
pub open spec fn updated_claimable(s: State, e: Entry, now: u64) -> int {
    e.claimable_reward + total_accrual(s, e.last_update_time, e.dynamic_reward_log@, now)
}

/// The accrual checkpoint after an update: it never moves backwards.
pub open spec fn updated_checkpoint(e: Entry, now: u64) -> u64 {
    if now >= e.last_update_time {
        now
    } else {
        e.last_update_time
    }
}

/// What one batch update does to one entry: tiers promoted, accrued reward
/// settled into `claimable_reward`, the averaged rate recomputed, the
/// checkpoint advanced; principal and history untouched.
pub open spec fn entry_updated(s: State, e: Entry, e2: Entry, now: u64) -> bool {
    &&& e2.claimable_reward == updated_claimable(s, e, now)
    &&& e2.averaged_reward_rate == updated_rate(s, e, now)
    &&& e2.last_update_time == updated_checkpoint(e, now)
    &&& e2.dynamic_reward_log@ == promoted_log(s, e.dynamic_reward_log@, now)
    &&& e2.ust_deposited == e.ust_deposited
    &&& e2.ust_deposit_log@ == e.ust_deposit_log@
    &&& e2.ust_withdraw_log@ == e.ust_withdraw_log@
}

/// The machine limits a batch update needs: the settled reward still fits a
/// `u128`, and so does the weighted-rate numerator.
pub open spec fn update_fits(s: State, e: Entry, now: u64) -> bool {
    &&& updated_claimable(s, e, now) <= u128::MAX
    &&& weighted_rate_sum(s, e.dynamic_reward_log@, now) <= u128::MAX
}

/// Each slice's accrual is non-negative.
pub proof fn lemma_slice_accrual_nonneg(s: State, checkpoint: u64, r: Reward, now: u64)
    ensures
        slice_accrual(s, checkpoint, r, now) >= 0,
{
    if r.amount != 0 {
        lemma_mul_nonnegative(
            rate_of(s, promoted_tier(s, r, now)) as int,
            r.amount as int,
        );
        lemma_mul_nonnegative(
            rate_of(s, promoted_tier(s, r, now)) * r.amount,
            elapsed_since(accrual_start(r, checkpoint), now) as int,
        );
    }
}

/// Accrual over a prefix of the log never exceeds accrual over the log.
pub proof fn lemma_total_accrual_prefix(
    s: State,
    checkpoint: u64,
    log: Seq<Reward>,
    now: u64,
    i: int,
)
    requires
        0 <= i <= log.len(),
    ensures
        total_accrual(s, checkpoint, log.subrange(0, i), now) <= total_accrual(
            s,
            checkpoint,
            log,
            now,
        ),
    decreases log.len() - i,
{
    if i == log.len() {
        assert(log.subrange(0, i) =~= log);
    } else {
        let p = log.subrange(0, i);
        let q = log.subrange(0, i + 1);
        assert(q.drop_last() =~= p);
        assert(q.last() == log[i]);
        lemma_slice_accrual_nonneg(s, checkpoint, log[i], now);
        lemma_total_accrual_prefix(s, checkpoint, log, now, i + 1);
    }
}

/// Each weighted-rate term is non-negative, so a prefix of the weighted sum
/// never exceeds the whole.
pub proof fn lemma_weighted_prefix(s: State, log: Seq<Reward>, now: u64, i: int)
    requires
        0 <= i <= log.len(),
    ensures
        weighted_rate_sum(s, log.subrange(0, i), now) <= weighted_rate_sum(s, log, now),
    decreases log.len() - i,
{
    if i == log.len() {
        assert(log.subrange(0, i) =~= log);
    } else {
        let p = log.subrange(0, i);
        let q = log.subrange(0, i + 1);
        assert(q.drop_last() =~= p);
        assert(q.last() == log[i]);
        lemma_mul_nonnegative(
            log[i].amount as int,
            rate_of(s, promoted_tier(s, log[i], now)) as int,
        );
        lemma_weighted_prefix(s, log, now, i + 1);
    }
}

/// The weighted-rate sum is bounded by the largest possible rate times the
/// log's total amount, so the weighted mean fits a `u64`.
pub proof fn lemma_weighted_rate_bound(s: State, log: Seq<Reward>, now: u64)
    ensures
        weighted_rate_sum(s, log, now) <= sum_rewards(log) * u64::MAX,
    decreases log.len(),
{
    if log.len() == 0 {
    } else {
        lemma_weighted_rate_bound(s, log.drop_last(), now);
        let r = log.last();
        lemma_mul_inequality(
            rate_of(s, promoted_tier(s, r, now)) as int,
            u64::MAX as int,
            r.amount as int,
        );
        assert(r.amount * rate_of(s, promoted_tier(s, r, now)) == rate_of(
            s,
            promoted_tier(s, r, now),
        ) * r.amount) by {
            vstd::arithmetic::mul::lemma_mul_is_commutative(
                r.amount as int,
                rate_of(s, promoted_tier(s, r, now)) as int,
            );
        }
        assert(sum_rewards(log) * u64::MAX == sum_rewards(log.drop_last()) * u64::MAX
            + r.amount * u64::MAX) by {
            vstd::arithmetic::mul::lemma_mul_is_distributive_add_other_way(
                u64::MAX as int,
                sum_rewards(log.drop_last()),
                r.amount as int,
            );
        }
    }
}

/// Promotion keeps every amount, so the promoted log sums to the same total.
pub proof fn lemma_promoted_log_sum(s: State, log: Seq<Reward>, now: u64)
    ensures
        promoted_log(s, log, now).len() == log.len(),
        sum_rewards(promoted_log(s, log, now)) == sum_rewards(log),
    decreases log.len(),
{
    if log.len() == 0 {
    } else {
        lemma_promoted_log_sum(s, log.drop_last(), now);
        assert(promoted_log(s, log, now).drop_last() =~= promoted_log(s, log.drop_last(), now));
        assert(promoted_log(s, log, now).last() == promote_slice(s, log.last(), now));
    }
}

/// One batch update pass over one entry.
///
/// Promotes each active slice's tier, settles its accrued reward into
/// `claimable_reward`, recomputes the amount-weighted mean rate, and
/// advances the accrual checkpoint, leaving principal and history untouched.
pub fn update_entry_rewards(state: &State, entry: &Entry, now: u64) -> (e2: Entry)
    requires
        entry.wf(),
        update_fits(*state, *entry, now),
    ensures
        entry_updated(*state, *entry, e2, now),
        e2.wf(),
{
    let ghost log: Seq<Reward> = entry.dynamic_reward_log@;
    let ghost checkpoint: u64 = entry.last_update_time;
    let mut new_log: Vec<Reward> = Vec::new();
    let mut accrued: u128 = 0;
    let mut weighted: u128 = 0;
    let n: usize = entry.dynamic_reward_log.len();
    let mut i: usize = 0;
    while i < n
        invariant
            0 <= i <= n,
            n == entry.dynamic_reward_log.len(),
            log == entry.dynamic_reward_log@,
            checkpoint == entry.last_update_time,
            entry.wf(),
            update_fits(*state, *entry, now),
            new_log@ =~= promoted_log(*state, log.subrange(0, i as int), now),
            accrued == total_accrual(*state, checkpoint, log.subrange(0, i as int), now),
            weighted == weighted_rate_sum(*state, log.subrange(0, i as int), now),
        decreases n - i,
    {
        let r = entry.dynamic_reward_log[i];
        let ghost pre = log.subrange(0, i as int);
        let ghost pre2 = log.subrange(0, i as int + 1);
        proof {
            assert(pre2.drop_last() =~= pre);
            assert(pre2.last() == log[i as int]);
            lemma_total_accrual_prefix(*state, checkpoint, log, now, i as int + 1);
            lemma_weighted_prefix(*state, log, now, i as int + 1);
            lemma_slice_accrual_nonneg(*state, checkpoint, log[i as int], now);
            lemma_mul_nonnegative(
                log[i as int].amount as int,
                rate_of(*state, promoted_tier(*state, log[i as int], now)) as int,
            );
            assert(total_accrual(*state, checkpoint, pre2, now) == accrued + slice_accrual(
                *state,
                checkpoint,
                log[i as int],
                now,
            ));
        }
        if r.amount == 0 {
            new_log.push(r);
            proof {
                assert(promote_slice(*state, log[i as int], now) == log[i as int]);
                assert(new_log@ =~= promoted_log(*state, pre2, now));
            }
        } else {
            let elapsed_total: u64 = if now >= r.time {
                now - r.time
            } else {
                0
            };
            let eligible: u8 = if elapsed_total >= state.tier3time {
                3
            } else if elapsed_total >= state.tier2time {
                2
            } else if elapsed_total >= state.tier1time {
                1
            } else {
                0
            };
            let new_tier: u8 = if r.reward_tier >= eligible {
                r.reward_tier
            } else {
                eligible
            };
            proof {
                assert(eligible == tier_for(*state, elapsed_since(r.time, now)));
                assert(new_tier == promoted_tier(*state, log[i as int], now));
            }
            new_log.push(Reward { amount: r.amount, time: r.time, reward_tier: new_tier });
            proof {
                assert(new_log@ =~= promoted_log(*state, pre2, now));
            }
            let rate: u64 = if new_tier == 0 {
                state.tier0rate
            } else if new_tier == 1 {
                state.tier1rate
            } else if new_tier == 2 {
                state.tier2rate
            } else {
                state.tier3rate
            };
            proof {
                assert(rate == rate_of(*state, new_tier));
            }
            let start: u64 = if r.time >= entry.last_update_time {
                r.time
            } else {
                entry.last_update_time
            };
            let elapsed_accrual: u64 = if now > start {
                now - start
            } else {
                0
            };
            if rate > 0 && elapsed_accrual > 0 {
                proof {
                    let acc = slice_accrual(*state, checkpoint, log[i as int], now);
                    let p1: int = r.amount * elapsed_accrual;
                    assert(acc == rate * r.amount * elapsed_accrual);
                    assert(rate * r.amount * elapsed_accrual == rate * (r.amount
                        * elapsed_accrual)) by {
                        vstd::arithmetic::mul::lemma_mul_is_associative(
                            rate as int,
                            r.amount as int,
                            elapsed_accrual as int,
                        );
                    }
                    lemma_mul_nonnegative(r.amount as int, elapsed_accrual as int);
                    assert(1 * p1 <= rate * p1) by {
                        lemma_mul_inequality(1, rate as int, p1);
                    }
                    assert(p1 * rate == rate * p1) by {
                        vstd::arithmetic::mul::lemma_mul_is_commutative(p1, rate as int);
                    }
                    assert(p1 <= acc);
                    assert(acc <= u128::MAX - accrued);
                    assert(p1 * rate == acc);
                }
                let p1: u128 = r.amount * (elapsed_accrual as u128);
                let acc_slice: u128 = p1 * (rate as u128);
                proof {
                    assert(acc_slice == slice_accrual(*state, checkpoint, log[i as int], now))
                        by {
                        vstd::arithmetic::mul::lemma_mul_is_associative(
                            rate as int,
                            r.amount as int,
                            elapsed_accrual as int,
                        );
                        vstd::arithmetic::mul::lemma_mul_is_commutative(
                            rate as int,
                            r.amount * elapsed_accrual,
                        );
                    }
                }
                accrued = accrued + acc_slice;
            } else {
                proof {
                    if rate == 0 {
                        assert(rate_of(*state, promoted_tier(*state, log[i as int], now))
                            == 0);
                        vstd::arithmetic::mul::lemma_mul_basics(log[i as int].amount as int);
                        vstd::arithmetic::mul::lemma_mul_basics(
                            elapsed_since(
                                accrual_start(log[i as int], checkpoint),
                                now,
                            ) as int,
                        );
                        assert(slice_accrual(*state, checkpoint, log[i as int], now) == 0);
                    } else {
                        assert(elapsed_since(accrual_start(log[i as int], checkpoint), now)
                            == 0);
                        vstd::arithmetic::mul::lemma_mul_basics(
                            rate_of(*state, promoted_tier(*state, log[i as int], now))
                                * log[i as int].amount,
                        );
                        assert(slice_accrual(*state, checkpoint, log[i as int], now) == 0);
                    }
                }
            }
            if rate > 0 {
                proof {
                    let w = log[i as int].amount * rate_of(
                        *state,
                        promoted_tier(*state, log[i as int], now),
                    );
                    assert(w <= u128::MAX - weighted);
                }
                let w: u128 = r.amount * (rate as u128);
                weighted = weighted + w;
            } else {
                proof {
                    assert(log[i as int].amount * rate_of(
                        *state,
                        promoted_tier(*state, log[i as int], now),
                    ) == 0) by {
                        vstd::arithmetic::mul::lemma_mul_basics(log[i as int].amount as int);
                    }
                }
            }
        }
        i = i + 1;
    }
    proof {
        assert(log.subrange(0, n as int) =~= log);
    }
    let averaged: u64 = if entry.ust_deposited == 0 {
        0
    } else {
        proof {
            lemma_weighted_rate_bound(*state, log, now);
            assert(sum_rewards(log) == entry.ust_deposited);
            lemma_div_is_ordered(
                weighted as int,
                entry.ust_deposited * u64::MAX,
                entry.ust_deposited as int,
            );
            lemma_div_multiples_vanish(u64::MAX as int, entry.ust_deposited as int);
            assert(entry.ust_deposited * u64::MAX == u64::MAX * entry.ust_deposited) by {
                vstd::arithmetic::mul::lemma_mul_is_commutative(
                    entry.ust_deposited as int,
                    u64::MAX as int,
                );
            }
            assert(weighted as int / (entry.ust_deposited as int) <= u64::MAX);
            vstd::arithmetic::div_mod::lemma_div_is_ordered_by_denominator(
                weighted as int,
                1,
                entry.ust_deposited as int,
            );
        }
        (weighted / entry.ust_deposited) as u64
    };
    let claimable: u128 = entry.claimable_reward + accrued;
    let checkpoint_after: u64 = if now >= entry.last_update_time {
        now
    } else {
        entry.last_update_time
    };
    let e2 = Entry {
        claimable_reward: claimable,
        ust_deposited: entry.ust_deposited,
        averaged_reward_rate: averaged,
        last_update_time: checkpoint_after,
        ust_deposit_log: crate::state::clone_deposits(&entry.ust_deposit_log),
        ust_withdraw_log: crate::state::clone_withdraws(&entry.ust_withdraw_log),
        dynamic_reward_log: new_log,
    };
    proof {
        lemma_promoted_log_sum(*state, log, now);
        assert forall|j: int| 0 <= j < e2.dynamic_reward_log@.len() implies e2.dynamic_reward_log@[j].reward_tier
            <= 3 by {
            assert(e2.dynamic_reward_log@[j] == promote_slice(*state, log[j], now));
        }
    }
    e2
}

} // verus!
