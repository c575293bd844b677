//! The FIFO reward-unwind rule: a withdrawal consumes principal from the
//! oldest reward slices first. Consumed slices stay in the log with amount
//! zero, keeping their historical tier and timestamp.

use vstd::prelude::*;
use crate::state::{sum_rewards, Reward};

verus! {

/// The log after consuming `r` of principal from the front of `s`, oldest
/// slice first. A slice smaller than the remainder is zeroed and consumption
/// continues; a slice at least as large gives up exactly the remainder.
pub open spec fn unwind(s: Seq<Reward>, r: int) -> Seq<Reward>
    decreases s.len(),
{
    if s.len() == 0 {
        s
    } else {
        let head = s[0];
        if head.amount <= r {
            seq![
                Reward { amount: 0, time: head.time, reward_tier: head.reward_tier },
            ] + unwind(s.drop_first(), r - head.amount)
        } else {
            seq![
                Reward {
                    amount: (head.amount - r) as u128,
                    time: head.time,
                    reward_tier: head.reward_tier,
                },
            ] + unwind(s.drop_first(), 0)
        }
    }
}

/// What is still left to consume after walking all of `s` with an initial
/// remainder of `r`.
pub open spec fn rem_after(s: Seq<Reward>, r: int) -> int
    decreases s.len(),
{
    if s.len() == 0 {
        r
    } else {
        if s[0].amount <= r {
            rem_after(s.drop_first(), r - s[0].amount)
        } else {
            rem_after(s.drop_first(), 0)
        }
    }
}

/// Unwinding keeps the log's length and every slice's timestamp and tier;
/// no slice's amount grows.
pub proof fn lemma_unwind_shape(s: Seq<Reward>, r: int)
    requires
        r >= 0,
    ensures
        unwind(s, r).len() == s.len(),
        forall|i: int|
            #![trigger unwind(s, r)[i]]
            0 <= i < s.len() ==> unwind(s, r)[i].time == s[i].time && unwind(s, r)[i].reward_tier
                == s[i].reward_tier && unwind(s, r)[i].amount <= s[i].amount,
    decreases s.len(),
{
    if s.len() > 0 {
        let head = s[0];
        if head.amount <= r {
            lemma_unwind_shape(s.drop_first(), r - head.amount);
        } else {
            lemma_unwind_shape(s.drop_first(), 0);
        }
    }
}

/// The remainder never goes negative.
pub proof fn lemma_rem_after_nonneg(s: Seq<Reward>, r: int)
    requires
        r >= 0,
    ensures
        rem_after(s, r) >= 0,
    decreases s.len(),
{
    if s.len() > 0 {
        if s[0].amount <= r {
            lemma_rem_after_nonneg(s.drop_first(), r - s[0].amount);
        } else {
            lemma_rem_after_nonneg(s.drop_first(), 0);
        }
    }
}

/// Unwinding removes exactly what was consumed: the initial remainder less
/// what is still left after the walk.
pub proof fn lemma_unwind_sum(s: Seq<Reward>, r: int)
    requires
        r >= 0,
    ensures
        sum_rewards(unwind(s, r)) == sum_rewards(s) - (r - rem_after(s, r)),
    decreases s.len(),
{
    if s.len() == 0 {
    } else {
        let head = s[0];
        crate::state::lemma_sum_rewards_first(s);
        if head.amount <= r {
            lemma_unwind_sum(s.drop_first(), r - head.amount);
            let u = unwind(s, r);
            assert(u[0].amount == 0);
            assert(u.drop_first() =~= unwind(s.drop_first(), r - head.amount));
            crate::state::lemma_sum_rewards_first(u);
        } else {
            lemma_unwind_sum(s.drop_first(), 0);
            let u = unwind(s, r);
            assert(u[0].amount == head.amount - r);
            assert(u.drop_first() =~= unwind(s.drop_first(), 0));
            crate::state::lemma_sum_rewards_first(u);
            lemma_rem_after_zero_chain(s.drop_first());
        }
    }
}

/// Walking with nothing left to consume leaves nothing to consume.
pub proof fn lemma_rem_after_zero_chain(s: Seq<Reward>)
    ensures
        rem_after(s, 0) == 0,
    decreases s.len(),
{
    if s.len() > 0 {
        lemma_rem_after_zero_chain(s.drop_first());
    }
}

/// A remainder covered by the log is consumed completely.
pub proof fn lemma_rem_after_within(s: Seq<Reward>, r: int)
    requires
        0 <= r <= sum_rewards(s),
    ensures
        rem_after(s, r) == 0,
    decreases s.len(),
{
    if s.len() == 0 {
    } else {
        crate::state::lemma_sum_rewards_first(s);
        if s[0].amount <= r {
            lemma_rem_after_within(s.drop_first(), r - s[0].amount);
        } else {
            lemma_rem_after_zero_chain(s.drop_first());
        }
    }
}

/// Unwinding a single slice performs one step of the walk.
pub proof fn lemma_unwind_one(head: Reward, r: int)
    requires
        r >= 0,
    ensures
        head.amount <= r ==> unwind(seq![head], r) == seq![
            Reward { amount: 0, time: head.time, reward_tier: head.reward_tier },
        ] && rem_after(seq![head], r) == r - head.amount,
        head.amount > r ==> unwind(seq![head], r) == seq![
            Reward {
                amount: (head.amount - r) as u128,
                time: head.time,
                reward_tier: head.reward_tier,
            },
        ] && rem_after(seq![head], r) == 0,
{
    let s = seq![head];
    assert(s.len() == 1);
    assert(s[0] == head);
    let e = s.drop_first();
    assert(e =~= Seq::<Reward>::empty());
    assert(e.len() == 0);
    assert(unwind(e, r - head.amount) == e);
    assert(unwind(e, 0) == e);
    assert(rem_after(e, r - head.amount) == r - head.amount);
    assert(rem_after(e, 0) == 0);
    if head.amount <= r {
        assert(unwind(s, r) =~= seq![
            Reward { amount: 0, time: head.time, reward_tier: head.reward_tier },
        ]);
    } else {
        assert(unwind(s, r) =~= seq![
            Reward {
                amount: (head.amount - r) as u128,
                time: head.time,
                reward_tier: head.reward_tier,
            },
        ]);
    }
}

/// Unwinding a concatenation walks the first part, then the second with
/// whatever remainder the first part left over.
pub proof fn lemma_unwind_append(a: Seq<Reward>, b: Seq<Reward>, r: int)
    requires
        r >= 0,
    ensures
        unwind(a + b, r) == unwind(a, r) + unwind(b, rem_after(a, r)),
        rem_after(a + b, r) == rem_after(b, rem_after(a, r)),
    decreases a.len(),
{
    if a.len() == 0 {
        assert(a + b =~= b);
        assert(unwind(a, r) + unwind(b, r) =~= unwind(b, r));
    } else {
        let head = a[0];
        assert((a + b)[0] == head);
        assert((a + b).len() > 0);
        assert((a + b).drop_first() =~= a.drop_first() + b);
        if head.amount <= r {
            lemma_rem_after_nonneg(a.drop_first(), r - head.amount);
            lemma_unwind_append(a.drop_first(), b, r - head.amount);
            assert(unwind(a + b, r) =~= unwind(a, r) + unwind(b, rem_after(a, r)));
        } else {
            lemma_unwind_append(a.drop_first(), b, 0);
            assert(unwind(a + b, r) =~= unwind(a, r) + unwind(b, rem_after(a, r)));
        }
    }
}

/// Consume `amount` of principal from the front of the log, in place.
///
/// The caller keeps `amount` within the log's total, so the walk consumes it
/// completely and the log's sum drops by exactly `amount`.
pub fn unwind_log(log: &mut Vec<Reward>, amount: u128)
    requires
        amount <= sum_rewards(old(log)@),
    ensures
        final(log)@ == unwind(old(log)@, amount as int),
{
    let ghost orig: Seq<Reward> = log@;
    let mut remaining: u128 = amount;
    let mut i: usize = 0;
    let n: usize = log.len();
    while i < n
        invariant
            0 <= i <= n,
            n == log.len(),
            n == orig.len(),
            remaining >= 0,
            remaining == rem_after(orig.subrange(0, i as int), amount as int),
            log@ == unwind(orig.subrange(0, i as int), amount as int) + orig.subrange(
                i as int,
                n as int,
            ),
        decreases n - i,
    {
        let ghost pre = orig.subrange(0, i as int);
        let ghost head = orig[i as int];
        proof {
            lemma_rem_after_nonneg(pre, amount as int);
            lemma_unwind_shape(pre, amount as int);
            assert(log@[i as int] == orig.subrange(i as int, n as int)[0]);
            assert(log@[i as int] == head);
        }
        let ghost rem0 = remaining;
        let slice_amount = log[i].amount;
        if slice_amount <= remaining {
            let tier = log[i].reward_tier;
            let t = log[i].time;
            log.set(
                i,
                Reward { amount: 0, time: t, reward_tier: tier },
            );
            remaining = remaining - slice_amount;
        } else {
            let tier = log[i].reward_tier;
            let t = log[i].time;
            log.set(
                i,
                Reward { amount: slice_amount - remaining, time: t, reward_tier: tier },
            );
            remaining = 0;
        }
        proof {
            let pre2 = orig.subrange(0, i as int + 1);
            let r1 = rem_after(pre, amount as int);
            assert(rem0 == r1);
            assert(pre2 =~= pre + seq![head]);
            lemma_unwind_append(pre, seq![head], amount as int);
            lemma_unwind_one(head, r1);
            assert(rem_after(pre2, amount as int) == rem_after(seq![head], r1));
            assert(remaining == rem_after(pre2, amount as int));
            assert(unwind(pre2, amount as int) =~= unwind(pre, amount as int) + unwind(
                seq![head],
                r1,
            ));
            assert(log@ =~= unwind(pre2, amount as int) + orig.subrange(i as int + 1, n as int));
        }
        i = i + 1;
    }
    proof {
        assert(orig.subrange(0, n as int) =~= orig);
        assert(orig.subrange(n as int, n as int) =~= Seq::<Reward>::empty());
        assert(log@ =~= unwind(orig, amount as int));
    }
}

} // verus!
