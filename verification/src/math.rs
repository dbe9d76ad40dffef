//! Interest and schedule arithmetic: the flat interest owed on a bond, the
//! lump-sum total, and how that total is split across the installments of a
//! repayment plan without under-collection.

use vstd::prelude::*;
use vstd::arithmetic::div_mod::{
    lemma_div_denominator, lemma_div_is_ordered, lemma_div_pos_is_pos,
    lemma_fundamental_div_mod, lemma_div_multiples_vanish,
};
use vstd::arithmetic::mul::{
    lemma_mul_basics, lemma_mul_inequality, lemma_mul_is_distributive_sub_other_way,
    lemma_mul_nonnegative, lemma_mul_upper_bound,
};
use crate::model::{MAX_BOND_AMOUNT, MAX_DURATION, MAX_INTEREST_RATE};

verus! {

/// Length of one period of a bond's duration, in seconds (thirty days).
pub const SECONDS_PER_PERIOD: u64 = 2_592_000;

/// Latest clock reading the scheduler accepts (the last second of the year
/// 9999), so that adding a whole schedule's worth of periods to it stays
/// within `i64`.
pub const MAX_TIMESTAMP: i64 = 253_402_300_799;

/// Flat interest owed on a principal of `amount` at `rate` percent,
/// rounded down.
pub open spec fn interest_of(amount: int, rate: int) -> int {
    amount * rate / 100
}

/// What a lump-sum settlement owes: principal plus interest.
pub open spec fn total_due(amount: int, rate: int) -> int {
    amount + interest_of(amount, rate)
}

/// At an accepted rate the interest is at most half the principal.
pub proof fn lemma_interest_bounds(amount: int, rate: int)
    requires
        0 <= amount,
        0 <= rate <= MAX_INTEREST_RATE,
    ensures
        0 <= interest_of(amount, rate) <= amount / 2,
{
    lemma_mul_nonnegative(amount, rate);
    lemma_div_pos_is_pos(amount * rate, 100);
    lemma_mul_inequality(rate, 50, amount);
    assert(amount * rate == rate * amount);
    lemma_div_is_ordered(amount * rate, 50 * amount, 100);
    lemma_div_denominator(50 * amount, 50, 2);
    lemma_div_multiples_vanish(amount, 50);
    assert((50 * amount) / 100 == amount / 2);
}

/// On a principal within the accepted cap, the lump-sum total fits in `u64`.
pub proof fn lemma_total_due_fits(amount: int, rate: int)
    requires
        0 <= amount <= MAX_BOND_AMOUNT,
        0 <= rate <= MAX_INTEREST_RATE,
    ensures
        0 <= total_due(amount, rate) <= u64::MAX,
{
    lemma_interest_bounds(amount, rate);
    lemma_div_is_ordered(amount, MAX_BOND_AMOUNT as int, 2);
}

/// Principal plus interest on a bond's terms, as a lump-sum settlement
/// transfers it.  The intermediate product is widened so it cannot
/// overflow, and the principal cap keeps the sum within `u64`.
pub fn lump_sum_total(amount: u64, interest_rate: u8) -> (total: u64)
    requires
        amount <= MAX_BOND_AMOUNT,
        interest_rate <= MAX_INTEREST_RATE,
    ensures
        total == total_due(amount as int, interest_rate as int),
{
    proof {
        lemma_interest_bounds(amount as int, interest_rate as int);
        lemma_total_due_fits(amount as int, interest_rate as int);
    }
    let interest = ((amount as u128) * (interest_rate as u128) / 100) as u64;
    amount + interest
}

/// Amount of the `k`-th installment (one-based) when `total` is split
/// across `n` installments: every installment carries the rounded-down
/// share, and the final one also carries the remainder, so nothing is
/// under-collected.
pub open spec fn installment_amount(total: int, n: int, k: int) -> int {
    if k < n {
        total / n
    } else {
        total / n + total % n
    }
}

/// Sum of the first `k` installment amounts of a plan of `n`.
pub open spec fn sum_installments(total: int, n: int, k: int) -> int
    decreases k,
{
    if k <= 0 {
        0
    } else {
        sum_installments(total, n, k - 1) + installment_amount(total, n, k)
    }
}

proof fn lemma_sum_installments_partial(total: int, n: int, k: int)
    requires
        0 < n,
        0 <= k < n,
    ensures
        sum_installments(total, n, k) == k * (total / n),
    decreases k,
{
    lemma_mul_basics(total / n);
    if k > 0 {
        lemma_sum_installments_partial(total, n, k - 1);
        lemma_mul_is_distributive_sub_other_way(total / n, k, 1);
    }
}

/// The schedule collects the total exactly: the installment amounts of a
/// plan of `n` sum to the whole lump-sum total.
pub proof fn lemma_installments_cover_total(total: int, n: int)
    requires
        0 < n,
    ensures
        sum_installments(total, n, n) == total,
{
    lemma_sum_installments_partial(total, n, n - 1);
    lemma_fundamental_div_mod(total, n);
    lemma_mul_is_distributive_sub_other_way(total / n, n, 1);
    lemma_mul_basics(total / n);
    vstd::arithmetic::mul::lemma_mul_is_commutative(n, total / n);
}

/// Seconds between the creation of a plan of `n` installments and the due
/// date of its `k`-th installment (one-based): the bond's duration, spread
/// evenly, with the final installment due exactly at the end of the term.
pub open spec fn due_offset(duration: int, n: int, k: int) -> int {
    k * duration * SECONDS_PER_PERIOD / n
}

/// Within a plan's bounds the due-date offsets stay below one term of the
/// longest duration, so adding one to an accepted clock reading fits `i64`.
pub proof fn lemma_due_offset_bounds(duration: int, n: int, k: int)
    requires
        0 < duration <= MAX_DURATION,
        0 < n,
        0 <= k <= n <= duration,
    ensures
        0 <= due_offset(duration, n, k) <= MAX_DURATION * MAX_DURATION * SECONDS_PER_PERIOD,
{
    lemma_mul_upper_bound(k, MAX_DURATION as int, duration, MAX_DURATION as int);
    lemma_mul_nonnegative(k, duration);
    lemma_mul_inequality(
        k * duration,
        MAX_DURATION as int * MAX_DURATION as int,
        SECONDS_PER_PERIOD as int,
    );
    lemma_mul_nonnegative(k * duration, SECONDS_PER_PERIOD as int);
    lemma_div_pos_is_pos(k * duration * SECONDS_PER_PERIOD, n);
    lemma_div_is_ordered(
        k * duration * SECONDS_PER_PERIOD,
        MAX_DURATION as int * MAX_DURATION as int * SECONDS_PER_PERIOD,
        n,
    );
    lemma_div_is_ordered_by_one(
        MAX_DURATION as int * MAX_DURATION as int * SECONDS_PER_PERIOD,
        n,
    );
}

/// A nonnegative quantity divided by a positive divisor is no more than
/// itself.
proof fn lemma_div_is_ordered_by_one(x: int, n: int)
    requires
        0 <= x,
        0 < n,
    ensures
        x / n <= x,
{
    vstd::arithmetic::div_mod::lemma_div_nonincreasing(x, n);
}

} // verus!
