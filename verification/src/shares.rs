//! Stateless conversion between a depositor's shares and their current
//! asset value, through the pool-wide price per share.
//!
//! All three conversions truncate toward zero. Truncation may lose a small
//! residual ("dust") on a round trip, but it can never manufacture value;
//! that is stated and proved below.

use vstd::arithmetic::div_mod::lemma_div_multiples_vanish;
use vstd::arithmetic::div_mod::lemma_fundamental_div_mod;
use vstd::prelude::*;

use crate::errors::LendingError;

verus! {

/// The redemption price of one share: `total_value / total_shares`,
/// truncated. Meaningful only when `total_shares > 0`.
pub open spec fn value_per_share_spec(total_value: nat, total_shares: nat) -> nat {
    total_value / total_shares
}

/// The current value of a share balance at price `vps`.
pub open spec fn shares_to_value_spec(shares: nat, vps: nat) -> nat {
    shares * vps
}

/// The shares worth a given value at price `vps`, truncated.
pub open spec fn value_to_shares_spec(value: nat, vps: nat) -> nat {
    value / vps
}

/// Price per share of a pool: fails exactly when the pool has no shares
/// outstanding.
pub fn value_per_share(total_value: u64, total_shares: u64) -> (r: Result<u64, LendingError>)
    ensures
        total_shares == 0 <==> r == Err::<u64, LendingError>(LendingError::PoolEmpty),
        total_shares > 0 ==> r == Ok::<u64, LendingError>(
            value_per_share_spec(total_value as nat, total_shares as nat) as u64,
        ),
{
    if total_shares == 0 {
        Err(LendingError::PoolEmpty)
    } else {
        Ok(total_value / total_shares)
    }
}

/// Value of `shares` at price `vps`; fails exactly when the product does
/// not fit the asset's integer unit.
pub fn shares_to_value(shares: u64, vps: u64) -> (r: Result<u64, LendingError>)
    ensures
        shares_to_value_spec(shares as nat, vps as nat) <= u64::MAX <==> r is Ok,
        r matches Ok(v) ==> v == shares_to_value_spec(shares as nat, vps as nat),
        r is Err ==> r == Err::<u64, LendingError>(LendingError::ArithmeticOverflow),
{
    proof {
        vstd::arithmetic::mul::lemma_mul_upper_bound(
            shares as int,
            u64::MAX as int,
            vps as int,
            u64::MAX as int,
        );
    }
    let wide: u128 = (shares as u128) * (vps as u128);
    if wide > u64::MAX as u128 {
        Err(LendingError::ArithmeticOverflow)
    } else {
        Ok(wide as u64)
    }
}

/// Shares worth `value` at price `vps`, truncated toward zero.
pub fn value_to_shares(value: u64, vps: u64) -> (r: u64)
    requires
        vps > 0,
    ensures
        r == value_to_shares_spec(value as nat, vps as nat),
{
    value / vps
}

/// Law: truncation never overstates value. For every pool with shares
/// outstanding, `value_per_share * total_shares <= total_value`.
pub proof fn lemma_price_never_overstates(total_value: nat, total_shares: nat)
    requires
        total_shares > 0,
    ensures
        value_per_share_spec(total_value, total_shares) * total_shares <= total_value,
{
    lemma_fundamental_div_mod(total_value as int, total_shares as int);
    vstd::arithmetic::mul::lemma_mul_is_commutative(
        total_shares as int,
        (total_value as int) / (total_shares as int),
    );
}

/// Law: the round trip `shares -> value -> shares -> value` never
/// manufactures value: `value(shares(value(s))) <= value(s)`.
pub proof fn lemma_round_trip_dust(shares: nat, vps: nat)
    requires
        vps > 0,
    ensures
        shares_to_value_spec(
            value_to_shares_spec(shares_to_value_spec(shares, vps), vps),
            vps,
        ) <= shares_to_value_spec(shares, vps),
{
    lemma_div_multiples_vanish(shares as int, vps as int);
    vstd::arithmetic::mul::lemma_mul_is_commutative(vps as int, shares as int);
}

} // verus!
