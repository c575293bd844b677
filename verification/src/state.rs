//! Data model of the ledger: the global protocol state, one `Entry` per
//! depositor, and the records that make up an entry's logs.

use vstd::prelude::*;

verus! {

/// One deposit record: an amount of stable value added at a point in time.
#[derive(Clone, Copy, Debug, PartialEq, Eq)]
pub struct Deposit {
    pub amount: u128,
    pub time: u64,
}

/// One withdrawal record: an amount of stable value removed at a point in time.
#[derive(Clone, Copy, Debug, PartialEq, Eq)]
pub struct Withdraw {
    pub amount: u128,
    pub time: u64,
}

/// One reward slice: an amount of still-active principal earning reward at
/// the rate of tier `reward_tier` since `time`. A slice whose amount has been
/// consumed by withdrawals stays in the log with amount zero, keeping its
/// historical tier and timestamp.
#[derive(Clone, Copy, Debug, PartialEq, Eq)]
pub struct Reward {
    pub amount: u128,
    pub time: u64,
    pub reward_tier: u8,
}

/// Global protocol state: authorization roles, the protocol-wide deposit
/// total, the sell-back price for reward, the money-market endpoints, and the
/// four reward tiers, each a `(rate, minimum elapsed seconds)` pair.
#[derive(Clone, Debug)]
pub struct State {
    pub owner: String,
    pub treasury_wallet: String,
    pub reward_contract: String,
    pub ust_deposited: u128,
    pub sellback_price: u64,
    pub anc_market: String,
    pub aust_contract: String,
    pub tier0rate: u64,
    pub tier0time: u64,
    pub tier1rate: u64,
    pub tier1time: u64,
    pub tier2rate: u64,
    pub tier2time: u64,
    pub tier3rate: u64,
    pub tier3time: u64,
}

/// One depositor's ledger record.
///
/// `last_update_time` is the accrual checkpoint: reward has been settled into
/// `claimable_reward` for every active slice up to this time, so a repeated
/// batch update at the same time credits nothing twice.
#[derive(Clone, Debug)]
pub struct Entry {
    pub claimable_reward: u128,
    pub ust_deposited: u128,
    pub averaged_reward_rate: u64,
    pub last_update_time: u64,
    pub ust_deposit_log: Vec<Deposit>,
    pub ust_withdraw_log: Vec<Withdraw>,
    pub dynamic_reward_log: Vec<Reward>,
}

/// Sum of the amounts of a sequence of deposit records.
pub open spec fn sum_deposits(s: Seq<Deposit>) -> int
    decreases s.len(),
{
    if s.len() == 0 {
        0
    } else {
        sum_deposits(s.drop_last()) + s.last().amount
    }
}

/// Sum of the amounts of a sequence of withdrawal records.
pub open spec fn sum_withdraws(s: Seq<Withdraw>) -> int
    decreases s.len(),
{
    if s.len() == 0 {
        0
    } else {
        sum_withdraws(s.drop_last()) + s.last().amount
    }
}

/// Sum of the amounts of a sequence of reward slices.
pub open spec fn sum_rewards(s: Seq<Reward>) -> int
    decreases s.len(),
{
    if s.len() == 0 {
        0
    } else {
        sum_rewards(s.drop_last()) + s.last().amount
    }
}

impl Entry {
    /// Well-formedness of an entry:
    /// - every active principal slice is tracked exactly once, so the reward
    ///   log's amounts sum to the current principal;
    /// - the principal equals total deposits minus total withdrawals;
    /// - every slice carries one of the four configured tiers.
    pub open spec fn wf(self) -> bool {
        &&& sum_rewards(self.dynamic_reward_log@) == self.ust_deposited
        &&& sum_deposits(self.ust_deposit_log@) == self.ust_deposited + sum_withdraws(
            self.ust_withdraw_log@,
        )
        &&& forall|i: int|
            0 <= i < self.dynamic_reward_log@.len() ==> self.dynamic_reward_log@[i].reward_tier
                <= 3
    }
}

pub proof fn lemma_sum_deposits_push(s: Seq<Deposit>, d: Deposit)
    ensures
        sum_deposits(s.push(d)) == sum_deposits(s) + d.amount,
{
    assert(s.push(d).drop_last() =~= s);
}

pub proof fn lemma_sum_withdraws_push(s: Seq<Withdraw>, w: Withdraw)
    ensures
        sum_withdraws(s.push(w)) == sum_withdraws(s) + w.amount,
{
    assert(s.push(w).drop_last() =~= s);
}

pub proof fn lemma_sum_rewards_push(s: Seq<Reward>, r: Reward)
    ensures
        sum_rewards(s.push(r)) == sum_rewards(s) + r.amount,
{
    assert(s.push(r).drop_last() =~= s);
}

/// The reward-slice sum can also be unfolded at the front of the sequence.
pub proof fn lemma_sum_rewards_first(s: Seq<Reward>)
    requires
        s.len() > 0,
    ensures
        sum_rewards(s) == s[0].amount + sum_rewards(s.drop_first()),
    decreases s.len(),
{
    if s.len() == 1 {
        assert(s.drop_first() =~= Seq::<Reward>::empty());
        assert(s.drop_last() =~= Seq::<Reward>::empty());
        assert(s.last() == s[0]);
        assert(sum_rewards(s) == s[0].amount + sum_rewards(s.drop_first()));
    } else {
        let t = s.drop_last();
        lemma_sum_rewards_first(t);
        assert(sum_rewards(s) == sum_rewards(t) + s.last().amount);
        assert(t[0] == s[0]);
        assert(s.drop_first().drop_last() =~= t.drop_first());
        assert(s.drop_first().last() == s.last());
        assert(sum_rewards(s.drop_first()) == sum_rewards(s.drop_first().drop_last())
            + s.drop_first().last().amount);
    }
}

/// Copy a deposit log record for record.
pub fn clone_deposits(v: &Vec<Deposit>) -> (r: Vec<Deposit>)
    ensures
        r@ == v@,
{
    let mut r: Vec<Deposit> = Vec::new();
    let mut i: usize = 0;
    while i < v.len()
        invariant
            0 <= i <= v.len(),
            r@ =~= v@.subrange(0, i as int),
        decreases v.len() - i,
    {
        r.push(v[i]);
        proof {
            assert(r@ =~= v@.subrange(0, i as int + 1));
        }
        i = i + 1;
    }
    proof {
        assert(v@.subrange(0, v@.len() as int) =~= v@);
    }
    r
}

/// Copy a withdrawal log record for record.
pub fn clone_withdraws(v: &Vec<Withdraw>) -> (r: Vec<Withdraw>)
    ensures
        r@ == v@,
{
    let mut r: Vec<Withdraw> = Vec::new();
    let mut i: usize = 0;
    while i < v.len()
        invariant
            0 <= i <= v.len(),
            r@ =~= v@.subrange(0, i as int),
        decreases v.len() - i,
    {
        r.push(v[i]);
        proof {
            assert(r@ =~= v@.subrange(0, i as int + 1));
        }
        i = i + 1;
    }
    proof {
        assert(v@.subrange(0, v@.len() as int) =~= v@);
    }
    r
}

/// Copy a reward log record for record.
pub fn clone_rewards(v: &Vec<Reward>) -> (r: Vec<Reward>)
    ensures
        r@ == v@,
{
    let mut r: Vec<Reward> = Vec::new();
    let mut i: usize = 0;
    while i < v.len()
        invariant
            0 <= i <= v.len(),
            r@ =~= v@.subrange(0, i as int),
        decreases v.len() - i,
    {
        r.push(v[i]);
        proof {
            assert(r@ =~= v@.subrange(0, i as int + 1));
        }
        i = i + 1;
    }
    proof {
        assert(v@.subrange(0, v@.len() as int) =~= v@);
    }
    r
}

} // verus!
