//! The decaying reward that a referrer earns for each new referral.

use vstd::prelude::*;
use vstd::arithmetic::power2::{lemma2_to64, lemma_pow2_strictly_increases, pow2};

verus! {

/// Points earned by the first referral of an account.
pub const FIRST_REFERRAL_REWARD: u64 = 50;

/// Number of referrals after which a further one earns nothing.
pub const REWARDED_REFERRALS: usize = 6;

/// The reward for a referral made by an account that already holds
/// `count` referrals: the first reward, halved once per earlier referral
/// and rounded down.
pub open spec fn reward_spec(count: nat) -> nat {
    if count == 0 {
        50
    } else {
        50nat / pow2(count)
    }
}

/// The rewards that are worth something, one by one, and nothing after them.
pub proof fn lemma_reward_values(count: nat)
    ensures
        count == 0 ==> reward_spec(count) == 50,
        count == 1 ==> reward_spec(count) == 25,
        count == 2 ==> reward_spec(count) == 12,
        count == 3 ==> reward_spec(count) == 6,
        count == 4 ==> reward_spec(count) == 3,
        count == 5 ==> reward_spec(count) == 1,
        count >= 6 ==> reward_spec(count) == 0,
{
    lemma2_to64();
    if count == 1 {
        assert(pow2(1) == 2);
    } else if count == 2 {
        assert(pow2(2) == 4);
    } else if count == 3 {
        assert(pow2(3) == 8);
    } else if count == 4 {
        assert(pow2(4) == 16);
    } else if count == 5 {
        assert(pow2(5) == 32);
    } else if count >= 6 {
        assert(pow2(6) == 64);
        if count > 6 {
            lemma_pow2_strictly_increases(6, count);
        }
        let d = pow2(count) as int;
        assert(50int / d == 0) by (nonlinear_arith)
            requires
                d >= 64,
        ;
    }
}

/// The reward is worth nothing from the sixth earlier referral on, and
/// something before that.
pub proof fn lemma_reward_runs_out(count: nat)
    ensures
        reward_spec(count) == 0 <==> count >= 6,
        reward_spec(count) <= 50,
{
    lemma_reward_values(count);
}

/// The reward never grows with the number of earlier referrals.
pub proof fn lemma_reward_never_grows(fewer: nat, more: nat)
    requires
        fewer <= more,
    ensures
        reward_spec(more) <= reward_spec(fewer),
{
    lemma_reward_values(more);
    lemma_reward_values(fewer);
}

/// Computes the reward for a referral by an account with `count` earlier
/// referrals.
pub fn reward(count: usize) -> (r: u64)
    ensures
        r == reward_spec(count as nat),
{
    proof {
        lemma_reward_values(count as nat);
    }
    if count == 0 {
        FIRST_REFERRAL_REWARD
    } else if count == 1 {
        25
    } else if count == 2 {
        12
    } else if count == 3 {
        6
    } else if count == 4 {
        3
    } else if count == 5 {
        1
    } else {
        0
    }
}

} // verus!
