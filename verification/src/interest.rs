//! Interest accrual engine.
//!
//! The pool accrues continuously-compounded interest: after an elapsed time
//! `t` at per-time-unit rate `r`, the total value becomes
//! `total_value * e^(r * t)`, truncated to the asset's integer unit.
//!
//! Rates and the exponential are held in fixed-point form: a quantity `q`
//! stands for the real number `q / SCALE`. The multiplier `e^(x / SCALE)`
//! is computed as the Taylor series `sum x^k / k!`, evaluated term by term
//! in fixed point with truncating division, `N_TERMS` terms in all. Every
//! truncation rounds down, so accrual can only err in the pool's favor.

use vstd::arithmetic::div_mod::lemma_div_is_ordered;
use vstd::arithmetic::div_mod::lemma_div_multiples_vanish;
use vstd::arithmetic::mul::lemma_mul_inequality;
use vstd::arithmetic::mul::lemma_mul_upper_bound;
use vstd::prelude::*;

use crate::errors::LendingError;

verus! {

/// Fixed-point scale: one unit of rate or multiplier is `1 / SCALE`.
pub const SCALE: u64 = 1_000_000;

/// Number of Taylor terms evaluated for the exponential.
pub const N_TERMS: u64 = 64;

/// Term `k` of the fixed-point Taylor series of `e^(x / SCALE)`, scaled by
/// `SCALE`: term 0 is `SCALE`, and each term is the previous one times
/// `x / (SCALE * k)`, with truncating division.
pub open spec fn exp_term(x: nat, k: nat) -> nat
    decreases k,
{
    if k == 0 {
        SCALE as nat
    } else {
        exp_term(x, (k - 1) as nat) * x / (SCALE as nat * k)
    }
}

/// Sum of the series' terms 0 through `n`.
pub open spec fn exp_partial(x: nat, n: nat) -> nat
    decreases n,
{
    if n == 0 {
        exp_term(x, 0)
    } else {
        exp_partial(x, (n - 1) as nat) + exp_term(x, n)
    }
}

/// The fixed-point multiplier `e^(x / SCALE)`, scaled by `SCALE`: the
/// Taylor series truncated to `N_TERMS` terms.
pub open spec fn exp_scaled_spec(x: nat) -> nat {
    exp_partial(x, (N_TERMS - 1) as nat)
}

/// Whether every partial sum of the series stays representable. Since each
/// term is itself bounded by the partial sum it closes, this also bounds
/// every term.
pub open spec fn exp_fits(x: nat) -> bool {
    forall|n: nat| n < N_TERMS ==> exp_partial(x, n) <= u64::MAX
}

/// The post-accrual total: `total * e^((rate * elapsed) / SCALE) / SCALE`,
/// truncated.
pub open spec fn accrued_spec(total: nat, rate: nat, elapsed: nat) -> nat {
    total * exp_scaled_spec(rate * elapsed) / (SCALE as nat)
}

/// Whether the whole accrual computation stays representable: the rate-time
/// product, every partial sum of the exponential, and the final total.
pub open spec fn accrual_fits(total: nat, rate: nat, elapsed: nat) -> bool {
    &&& rate * elapsed <= u64::MAX
    &&& exp_fits(rate * elapsed)
    &&& accrued_spec(total, rate, elapsed) <= u64::MAX
}

/// The fixed-point exponential multiplier `e^(x / SCALE)`, scaled by
/// `SCALE`. Returns `None` exactly when some partial sum of the series
/// exceeds `u64::MAX`.
pub fn exp_scaled(x: u64) -> (r: Option<u64>)
    ensures
        r is Some <==> exp_fits(x as nat),
        r matches Some(m) ==> m == exp_scaled_spec(x as nat),
{
    let mut term: u64 = SCALE;
    let mut sum: u64 = SCALE;
    let mut k: u64 = 1;
    while k < N_TERMS
        invariant
            1 <= k <= N_TERMS,
            term == exp_term(x as nat, (k - 1) as nat),
            sum == exp_partial(x as nat, (k - 1) as nat),
            forall|n: nat| n < k ==> exp_partial(x as nat, n) <= u64::MAX,
        decreases N_TERMS - k,
    {
        proof {
            lemma_mul_upper_bound(term as int, u64::MAX as int, x as int, u64::MAX as int);
        }
        let num: u128 = (term as u128) * (x as u128);
        let den: u64 = SCALE * k;
        let next: u128 = num / (den as u128);
        let wide: u128 = (sum as u128) + next;
        if wide > u64::MAX as u128 {
            proof {
                assert(!exp_fits(x as nat)) by {
                    assert(exp_partial(x as nat, k as nat) > u64::MAX);
                }
            }
            return None;
        }
        term = next as u64;
        sum = wide as u64;
        k = k + 1;
    }
    Some(sum)
}

/// The post-accrual total value of a pool: `total * e^(rate * elapsed)`
/// in fixed point, truncated. Fails exactly when some intermediate value
/// does not fit the asset's integer unit.
pub fn accrued_value(total: u64, rate: u64, elapsed: u64) -> (r: Result<u64, LendingError>)
    ensures
        r is Ok <==> accrual_fits(total as nat, rate as nat, elapsed as nat),
        r matches Ok(v) ==> v == accrued_spec(total as nat, rate as nat, elapsed as nat),
        r is Err ==> r == Err::<u64, LendingError>(LendingError::ArithmeticOverflow),
{
    proof {
        lemma_mul_upper_bound(rate as int, u64::MAX as int, elapsed as int, u64::MAX as int);
    }
    let x_wide: u128 = (rate as u128) * (elapsed as u128);
    if x_wide > u64::MAX as u128 {
        return Err(LendingError::ArithmeticOverflow);
    }
    let multiplier: u64 = match exp_scaled(x_wide as u64) {
        Some(m) => m,
        None => {
            return Err(LendingError::ArithmeticOverflow);
        },
    };
    proof {
        lemma_mul_upper_bound(total as int, u64::MAX as int, multiplier as int, u64::MAX as int);
    }
    let scaled: u128 = (total as u128) * (multiplier as u128) / (SCALE as u128);
    if scaled > u64::MAX as u128 {
        return Err(LendingError::ArithmeticOverflow);
    }
    Ok(scaled as u64)
}

/// With `x == 0`, every term after the first vanishes, so every partial sum
/// is exactly `SCALE`.
proof fn lemma_exp_partial_of_zero(n: nat)
    ensures
        exp_partial(0, n) == SCALE,
        exp_term(0, n) <= SCALE,
    decreases n,
{
    if n > 0 {
        lemma_exp_partial_of_zero((n - 1) as nat);
        assert(exp_term(0, (n - 1) as nat) * 0 == 0);
    }
}

/// Law: accrual over zero elapsed time is a no-op, for any rate: the
/// multiplier is exactly one, the computation always fits, and the total
/// value is returned unchanged.
pub proof fn lemma_accrual_zero_elapsed(total: u64, rate: u64)
    ensures
        accrued_spec(total as nat, rate as nat, 0) == total,
        accrual_fits(total as nat, rate as nat, 0),
{
    lemma_exp_partial_of_zero((N_TERMS - 1) as nat);
    lemma_div_multiples_vanish(total as int, SCALE as int);
    assert forall|n: nat| n < N_TERMS implies exp_partial(0, n) <= u64::MAX by {
        lemma_exp_partial_of_zero(n);
    }
}

/// Each term of the series is monotone in `x`.
proof fn lemma_exp_term_monotone(x1: nat, x2: nat, k: nat)
    requires
        x1 <= x2,
    ensures
        exp_term(x1, k) <= exp_term(x2, k),
    decreases k,
{
    if k > 0 {
        lemma_exp_term_monotone(x1, x2, (k - 1) as nat);
        let t1: nat = exp_term(x1, (k - 1) as nat);
        let t2: nat = exp_term(x2, (k - 1) as nat);
        lemma_mul_upper_bound(t1 as int, t2 as int, x1 as int, x2 as int);
        lemma_div_is_ordered(
            (t1 * x1) as int,
            (t2 * x2) as int,
            (SCALE as nat * k) as int,
        );
    }
}

/// Every partial sum of the series is monotone in `x`.
proof fn lemma_exp_partial_monotone(x1: nat, x2: nat, n: nat)
    requires
        x1 <= x2,
    ensures
        exp_partial(x1, n) <= exp_partial(x2, n),
    decreases n,
{
    lemma_exp_term_monotone(x1, x2, n);
    if n > 0 {
        lemma_exp_partial_monotone(x1, x2, (n - 1) as nat);
    }
}

/// Law: accrual is monotonic in elapsed time. For a positive rate and
/// `t2 > t1 >= 0`, the total value accrued at `t2` is at least the total
/// value accrued at `t1`.
pub proof fn lemma_accrual_monotone(total: nat, rate: nat, t1: nat, t2: nat)
    requires
        rate > 0,
        t1 < t2,
    ensures
        accrued_spec(total, rate, t1) <= accrued_spec(total, rate, t2),
{
    lemma_mul_inequality(t1 as int, t2 as int, rate as int);
    lemma_exp_partial_monotone(rate * t1, rate * t2, (N_TERMS - 1) as nat);
    lemma_mul_inequality(
        exp_scaled_spec(rate * t1) as int,
        exp_scaled_spec(rate * t2) as int,
        total as int,
    );
    lemma_div_is_ordered(
        (total * exp_scaled_spec(rate * t1)) as int,
        (total * exp_scaled_spec(rate * t2)) as int,
        SCALE as int,
    );
}

} // verus!
