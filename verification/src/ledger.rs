//! The two ledger records — the pool-wide `Pool` and the per-identity
//! `Depositor` — and the withdrawal operation that updates both atomically.

use vstd::arithmetic::div_mod::lemma_fundamental_div_mod;
use vstd::arithmetic::div_mod::lemma_multiply_divide_le;
use vstd::arithmetic::mul::lemma_mul_inequality;
use vstd::prelude::*;

use crate::errors::LendingError;
use crate::interest::accrual_fits;
use crate::interest::accrued_spec;
use crate::interest::accrued_value;
use crate::shares::shares_to_value_spec;
use crate::shares::value_per_share;
use crate::shares::value_per_share_spec;
use crate::shares::value_to_shares;
use crate::shares::value_to_shares_spec;

verus! {

/// The supported assets. A depositor record carries one pool address and
/// one share balance per asset.
#[derive(Clone, Copy, Debug, PartialEq, Eq, Structural)]
pub enum Asset {
    Usdc,
    Sol,
}

/// Pool-wide ledger for one asset: the custodied value (plus accrued
/// interest), the shares outstanding against it, and the interest rate in
/// `SCALE`-ths per time unit.
#[derive(Clone, Copy, Debug, PartialEq, Eq, Structural)]
pub struct Pool {
    pub total_value: u64,
    pub total_shares: u64,
    pub interest_rate: u64,
}

/// Per-identity ledger: for each asset, the address of the pool the shares
/// belong to, the last-known withdrawable principal (an informational
/// cache, not authoritative for value), and the share balance itself;
/// plus the timestamp of the last accrual applied on this depositor's
/// behalf.
#[derive(Clone, Copy, Debug, PartialEq, Eq, Structural)]
pub struct Depositor {
    pub usdc_address: u64,
    pub sol_address: u64,
    pub deposited_usdc: u64,
    pub deposited_usdc_shares: u64,
    pub deposited_sol: u64,
    pub deposited_sol_shares: u64,
    pub last_updated: i64,
}

impl Depositor {
    /// The depositor's share balance for one asset.
    pub open spec fn shares_of(self, a: Asset) -> u64 {
        match a {
            Asset::Usdc => self.deposited_usdc_shares,
            Asset::Sol => self.deposited_sol_shares,
        }
    }

    /// The depositor's cached principal for one asset.
    pub open spec fn value_of(self, a: Asset) -> u64 {
        match a {
            Asset::Usdc => self.deposited_usdc,
            Asset::Sol => self.deposited_sol,
        }
    }

    /// Which asset a requested address selects: the recorded addresses are
    /// tried in a fixed order, and an address matching neither selects
    /// nothing.
    pub open spec fn asset_for(self, requested: u64) -> Option<Asset> {
        if requested == self.usdc_address {
            Some(Asset::Usdc)
        } else if requested == self.sol_address {
            Some(Asset::Sol)
        } else {
            None
        }
    }

    /// Ledger consistency: a depositor's claim never exceeds the pool's
    /// shares outstanding, for every asset.
    pub open spec fn consistent_with(self, p: Pool) -> bool {
        &&& self.deposited_usdc_shares <= p.total_shares
        &&& self.deposited_sol_shares <= p.total_shares
    }

    /// Resolve a requested asset address against the recorded ones; an
    /// address matching neither is an explicit error.
    pub fn select_asset(&self, requested: u64) -> (r: Result<Asset, LendingError>)
        ensures
            match self.asset_for(requested) {
                Some(a) => r == Ok::<Asset, LendingError>(a),
                None => r == Err::<Asset, LendingError>(LendingError::UnknownAsset),
            },
    {
        if requested == self.usdc_address {
            Ok(Asset::Usdc)
        } else if requested == self.sol_address {
            Ok(Asset::Sol)
        } else {
            Err(LendingError::UnknownAsset)
        }
    }

    /// The depositor record after a validated withdrawal of `amount` value
    /// and `removed` shares from asset `a`, stamped with the accrual time.
    pub open spec fn after_withdrawal(self, a: Asset, amount: u64, removed: u64, now: i64) -> Depositor {
        match a {
            Asset::Usdc => Depositor {
                deposited_usdc: (self.deposited_usdc - amount) as u64,
                deposited_usdc_shares: (self.deposited_usdc_shares - removed) as u64,
                last_updated: now,
                ..self
            },
            Asset::Sol => Depositor {
                deposited_sol: (self.deposited_sol - amount) as u64,
                deposited_sol_shares: (self.deposited_sol_shares - removed) as u64,
                last_updated: now,
                ..self
            },
        }
    }
}

/// Time elapsed from `last_updated` to `now`, clamped to zero for
/// out-of-order clock readings.
pub open spec fn elapsed_spec(last_updated: int, now: int) -> nat {
    if now >= last_updated {
        (now - last_updated) as nat
    } else {
        0
    }
}

/// Elapsed time since the last update. A clock reading earlier than the
/// recorded timestamp counts as zero elapsed time.
pub fn elapsed_since(last_updated: i64, now: i64) -> (r: u64)
    ensures
        r == elapsed_spec(last_updated as int, now as int),
{
    if now >= last_updated {
        ((now as i128) - (last_updated as i128)) as u64
    } else {
        0
    }
}

/// Validate a requested amount against the depositor's current value:
/// succeeds exactly when the value covers the request.
pub fn validate_withdrawal(current_value: u64, amount: u64) -> (r: Result<(), LendingError>)
    ensures
        r is Ok <==> current_value >= amount,
        r is Err ==> r == Err::<(), LendingError>(LendingError::InsufficientFunds),
{
    if current_value >= amount {
        Ok(())
    } else {
        Err(LendingError::InsufficientFunds)
    }
}

/// Advance a pool's total value in place by the interest accrued over
/// `elapsed` time units. Shares outstanding and the rate are untouched;
/// on failure the pool is unchanged.
pub fn accrue(pool: &mut Pool, elapsed: u64) -> (r: Result<(), LendingError>)
    ensures
        r is Ok <==> accrual_fits(
            old(pool).total_value as nat,
            old(pool).interest_rate as nat,
            elapsed as nat,
        ),
        r is Ok ==> final(pool).total_value == accrued_spec(
            old(pool).total_value as nat,
            old(pool).interest_rate as nat,
            elapsed as nat,
        ),
        final(pool).total_shares == old(pool).total_shares,
        final(pool).interest_rate == old(pool).interest_rate,
        r is Err ==> *final(pool) == *old(pool) && r == Err::<(), LendingError>(
            LendingError::ArithmeticOverflow,
        ),
{
    match accrued_value(pool.total_value, pool.interest_rate, elapsed) {
        Ok(v) => {
            pool.total_value = v;
            Ok(())
        },
        Err(e) => Err(e),
    }
}

/// What one withdrawal does, as a transition on the two records. Read in
/// order: resolve the asset; accrue interest over the time elapsed since
/// the depositor's last update; price the depositor's shares; check the
/// request against that value and against the cached principal; then burn
/// `amount / value_per_share` shares once, and apply the same decrements
/// to both ledgers. Any failure leaves both records as they were.
pub open spec fn withdraw_spec(
    p: Pool,
    d: Depositor,
    requested_asset: u64,
    amount: u64,
    now: i64,
) -> Result<(Pool, Depositor), LendingError> {
    match d.asset_for(requested_asset) {
        None => Err(LendingError::UnknownAsset),
        Some(a) => {
            let elapsed: nat = elapsed_spec(d.last_updated as int, now as int);
            if !accrual_fits(p.total_value as nat, p.interest_rate as nat, elapsed) {
                Err(LendingError::ArithmeticOverflow)
            } else {
                let new_total: nat = accrued_spec(p.total_value as nat, p.interest_rate as nat, elapsed);
                if p.total_shares == 0 {
                    Err(LendingError::PoolEmpty)
                } else {
                    let vps: nat = value_per_share_spec(new_total, p.total_shares as nat);
                    let value: nat = shares_to_value_spec(d.shares_of(a) as nat, vps);
                    if value < amount {
                        Err(LendingError::InsufficientFunds)
                    } else if d.value_of(a) < amount {
                        Err(LendingError::ArithmeticUnderflow)
                    } else {
                        let removed: nat = value_to_shares_spec(amount as nat, vps);
                        Ok(
                            (
                                Pool {
                                    total_value: (new_total - amount) as u64,
                                    total_shares: (p.total_shares - removed) as u64,
                                    interest_rate: p.interest_rate,
                                },
                                d.after_withdrawal(a, amount, removed as u64, now),
                            ),
                        )
                    }
                }
            }
        },
    }
}

/// The withdrawal operation: accrue interest, price the depositor's
/// shares, validate the requested amount, and decrement both ledgers by
/// the same value and the same share count, atomically. On any failure
/// neither record changes; the caller then owes the depositor a transfer
/// of `amount` exactly when the result is `Ok`.
pub fn process_withdraw(
    pool: &mut Pool,
    depositor: &mut Depositor,
    requested_asset: u64,
    amount: u64,
    now: i64,
) -> (r: Result<(), LendingError>)
    requires
        amount > 0,
        old(depositor).consistent_with(*old(pool)),
    ensures
        (match withdraw_spec(*old(pool), *old(depositor), requested_asset, amount, now) {
            Ok((p2, d2)) => {
                &&& r == Ok::<(), LendingError>(())
                &&& *final(pool) == p2
                &&& *final(depositor) == d2
            },
            Err(e) => {
                &&& r == Err::<(), LendingError>(e)
                &&& *final(pool) == *old(pool)
                &&& *final(depositor) == *old(depositor)
            },
        }),
{
    let p0 = *pool;
    let d0 = *depositor;
    let asset = match d0.select_asset(requested_asset) {
        Ok(a) => a,
        Err(e) => {
            return Err(e);
        },
    };
    let shares: u64 = match asset {
        Asset::Usdc => d0.deposited_usdc_shares,
        Asset::Sol => d0.deposited_sol_shares,
    };
    let cached: u64 = match asset {
        Asset::Usdc => d0.deposited_usdc,
        Asset::Sol => d0.deposited_sol,
    };
    let elapsed: u64 = elapsed_since(d0.last_updated, now);
    let new_total: u64 = match accrued_value(p0.total_value, p0.interest_rate, elapsed) {
        Ok(v) => v,
        Err(e) => {
            return Err(e);
        },
    };
    let vps: u64 = match value_per_share(new_total, p0.total_shares) {
        Ok(v) => v,
        Err(e) => {
            return Err(e);
        },
    };
    proof {
        // shares * vps <= total_shares * vps <= new_total, so the product
        // fits and never claims more than the pool holds.
        lemma_fundamental_div_mod(new_total as int, p0.total_shares as int);
        lemma_mul_inequality(shares as int, p0.total_shares as int, vps as int);
    }
    let value: u64 = shares * vps;
    if value < amount {
        return Err(LendingError::InsufficientFunds);
    }
    if cached < amount {
        return Err(LendingError::ArithmeticUnderflow);
    }
    proof {
        if vps == 0 {
            assert(shares * vps == 0);
        }
    }
    let removed: u64 = value_to_shares(amount, vps);
    proof {
        // amount <= shares * vps, so amount / vps <= shares.
        vstd::arithmetic::mul::lemma_mul_is_commutative(vps as int, shares as int);
        lemma_multiply_divide_le(amount as int, vps as int, shares as int);
    }
    pool.total_value = new_total - amount;
    pool.total_shares = p0.total_shares - removed;
    match asset {
        Asset::Usdc => {
            depositor.deposited_usdc = cached - amount;
            depositor.deposited_usdc_shares = shares - removed;
        },
        Asset::Sol => {
            depositor.deposited_sol = cached - amount;
            depositor.deposited_sol_shares = shares - removed;
        },
    }
    depositor.last_updated = now;
    Ok(())
}

/// Law: a successful withdrawal burns no more shares than the depositor
/// holds — the share balance cannot go below zero — and pool and depositor
/// lose exactly the same share count, so a pool that covered the sum of
/// all depositors' shares before still covers it after. `others` stands
/// for the combined remaining shares of every other depositor.
pub proof fn lemma_withdraw_preserves_share_cover(
    p: Pool,
    d: Depositor,
    requested_asset: u64,
    amount: u64,
    now: i64,
    a: Asset,
    others: nat,
)
    requires
        amount > 0,
        d.consistent_with(p),
        d.asset_for(requested_asset) == Some(a),
        d.shares_of(a) + others <= p.total_shares,
    ensures
        withdraw_spec(p, d, requested_asset, amount, now) matches Ok((p2, d2)) ==> {
            &&& d2.shares_of(a) <= d.shares_of(a)
            &&& p.total_shares - p2.total_shares == d.shares_of(a) - d2.shares_of(a)
            &&& d2.shares_of(a) + others <= p2.total_shares
        },
{
    if withdraw_spec(p, d, requested_asset, amount, now) is Ok {
        let elapsed: nat = elapsed_spec(d.last_updated as int, now as int);
        let new_total: nat = accrued_spec(p.total_value as nat, p.interest_rate as nat, elapsed);
        let vps: nat = value_per_share_spec(new_total, p.total_shares as nat);
        let shares: nat = d.shares_of(a) as nat;
        assert(shares * vps >= amount);
        if vps == 0 {
            assert(shares * vps == 0);
        }
        vstd::arithmetic::mul::lemma_mul_is_commutative(vps as int, shares as int);
        lemma_multiply_divide_le(amount as int, vps as int, shares as int);
    }
}

} // verus!
