//! Slashing of deposits.

use crate::math;
use soroban_sdk::Env;
use vstd::prelude::*;

verus! {

/// How much of a deposit is slashed.
pub struct SlashingConfig {
    /// The slashed share, in percent.
    pub penalty_percentage: u32,
}

/// The slashed part of `amount` at `penalty` percent, rounded toward zero. A
/// share above 100 percent takes everything.
pub open spec fn slashed(amount: int, penalty: int) -> int {
    if penalty > 100 {
        amount
    } else {
        math::truncated_quotient(amount * penalty, 100)
    }
}

/// The part of `amount` that is slashed at `penalty` percent.
pub fn calculate_slashing_penalty(_env: &Env, amount: i128, penalty: u32) -> (r: i128)
    requires
        penalty <= 100 ==> i128::MIN <= amount * penalty <= i128::MAX,
    ensures
        r == slashed(amount as int, penalty as int),
        penalty > 100 ==> r == amount,
        penalty <= 100 && amount >= 0 ==> r * 100 <= amount * penalty < r * 100 + 100,
        penalty <= 100 && amount <= 0 ==> r * 100 - 100 < amount * penalty <= r * 100,
{
    proof {
        law_penalty_is_the_percentage(amount, penalty);
    }
    if penalty > 100 {
        return amount;
    }
    (amount * penalty as i128) / 100
}

/// The penalty is the given percentage of the deposit to within one unit, and errs
/// toward zero; above 100 percent it is the deposit.
pub proof fn law_penalty_is_the_percentage(amount: i128, penalty: u32)
    ensures
        ({
            let taken = slashed(amount as int, penalty as int);
            &&& penalty > 100 ==> taken == amount
            &&& penalty <= 100 && amount >= 0 ==> taken * 100 <= amount * penalty < taken * 100 + 100
            &&& penalty <= 100 && amount <= 0 ==> taken * 100 - 100 < amount * penalty <= taken * 100
        }),
{
    let a = amount as int;
    let p = penalty as int;
    assert(a >= 0 ==> a * p >= 0) by (nonlinear_arith)
        requires
            p >= 0,
    ;
    assert(a <= 0 ==> a * p <= 0) by (nonlinear_arith)
        requires
            p >= 0,
    ;
}

/// Slashing takes from nothing to all of a deposit, and never more: nothing at
/// zero percent, everything from 100 percent up.
pub proof fn law_penalty_is_part_of_amount(amount: i128, penalty: u32)
    ensures
        amount >= 0 ==> 0 <= slashed(amount as int, penalty as int) <= amount,
        amount <= 0 ==> amount <= slashed(amount as int, penalty as int) <= 0,
        penalty == 0 ==> slashed(amount as int, penalty as int) == 0,
        penalty >= 100 ==> slashed(amount as int, penalty as int) == amount,
{
    let a = amount as int;
    let p = penalty as int;
    let m = math::magnitude(a);
    if p <= 100 {
        assert(math::magnitude(a * p) == m * p) by (nonlinear_arith)
            requires
                p >= 0,
                m == math::magnitude(a),
        ;
        assert(0 <= (m * p) / 100 <= m) by (nonlinear_arith)
            requires
                0 <= p <= 100,
                m >= 0,
        ;
        assert(a >= 0 ==> a * p >= 0) by (nonlinear_arith)
            requires
                p >= 0,
        ;
        assert(a < 0 ==> a * p <= 0) by (nonlinear_arith)
            requires
                p >= 0,
        ;
        if p == 0 {
            assert(a * p == 0) by (nonlinear_arith)
                requires
                    p == 0,
            ;
        }
    }
}

/// A higher percentage never slashes less of the same deposit.
pub proof fn law_penalty_grows_with_percentage(amount: i128, low: u32, high: u32)
    requires
        amount >= 0,
        low <= high,
    ensures
        slashed(amount as int, low as int) <= slashed(amount as int, high as int),
{
    law_penalty_is_part_of_amount(amount, low);
    let a = amount as int;
    let l = low as int;
    let h = high as int;
    assert(0 <= a * l <= a * h) by (nonlinear_arith)
        requires
            a >= 0,
            0 <= l <= h,
    ;
    if h <= 100 {
        assert(math::truncated_quotient(a * l, 100) == (a * l) / 100);
        assert(math::truncated_quotient(a * h, 100) == (a * h) / 100);
    }
}

} // verus!
