use lending::ledger::accrue;
use lending::ledger::elapsed_since;
use lending::ledger::process_withdraw;
use lending::ledger::validate_withdrawal;
use lending::Asset;
use lending::Depositor;
use lending::LendingError;
use lending::Pool;

const USDC: u64 = 11;
const SOL: u64 = 22;

fn depositor(usdc: u64, usdc_shares: u64, last_updated: i64) -> Depositor {
    Depositor {
        usdc_address: USDC,
        sol_address: SOL,
        deposited_usdc: usdc,
        deposited_usdc_shares: usdc_shares,
        deposited_sol: 0,
        deposited_sol_shares: 0,
        last_updated,
    }
}

#[test]
fn scenario_full_withdrawal_at_price_one() {
    // Pool at price 1, depositor holds half the shares, zero rate, zero
    // elapsed time: withdrawing 500,000 empties the depositor and halves
    // the pool.
    let mut pool = Pool { total_value: 1_000_000, total_shares: 1_000_000, interest_rate: 0 };
    let mut d = depositor(500_000, 500_000, 1_000);
    let r = process_withdraw(&mut pool, &mut d, USDC, 500_000, 1_000);
    assert_eq!(r, Ok(()));
    assert_eq!(pool, Pool { total_value: 500_000, total_shares: 500_000, interest_rate: 0 });
    assert_eq!(d.deposited_usdc, 0);
    assert_eq!(d.deposited_usdc_shares, 0);
    assert_eq!(d.last_updated, 1_000);
}

#[test]
fn scenario_insufficient_funds_changes_nothing() {
    let mut pool = Pool { total_value: 1_000_000, total_shares: 1_000_000, interest_rate: 0 };
    let mut d = depositor(100, 100, 1_000);
    let pool_before = pool;
    let d_before = d;
    let r = process_withdraw(&mut pool, &mut d, USDC, 1_000_000, 1_000);
    assert_eq!(r, Err(LendingError::InsufficientFunds));
    assert_eq!(pool, pool_before);
    assert_eq!(d, d_before);
}

#[test]
fn scenario_empty_pool_fails_before_anything_else() {
    let mut pool = Pool { total_value: 1_000_000, total_shares: 0, interest_rate: 0 };
    let mut d = depositor(0, 0, 1_000);
    let pool_before = pool;
    let d_before = d;
    let r = process_withdraw(&mut pool, &mut d, USDC, 1, 1_000);
    assert_eq!(r, Err(LendingError::PoolEmpty));
    assert_eq!(pool, pool_before);
    assert_eq!(d, d_before);
}

#[test]
fn scenario_accrual_raises_convertible_value() {
    // rate 0.10 per unit, one unit elapsed: the pool grows to
    // floor(1,000,000 * e^0.10) = 1,105,170 before any withdrawal, and a
    // holder of half the shares can withdraw more than half the old total.
    let mut pool = Pool { total_value: 1_000_000, total_shares: 1_000, interest_rate: 100_000 };
    assert_eq!(accrue(&mut pool, 1), Ok(()));
    assert_eq!(pool.total_value, 1_105_170);
    assert_eq!(pool.total_shares, 1_000);

    // The same accrual inside a withdrawal: price per share is now 1105,
    // so 500 shares cover 552,500 — more than the 500,000 they covered
    // at price 1,000.
    let mut pool = Pool { total_value: 1_000_000, total_shares: 1_000, interest_rate: 100_000 };
    let mut d = depositor(600_000, 500, 0);
    let r = process_withdraw(&mut pool, &mut d, USDC, 552_500, 1);
    assert_eq!(r, Ok(()));
    assert_eq!(pool, Pool { total_value: 552_670, total_shares: 500, interest_rate: 100_000 });
    assert_eq!(d.deposited_usdc, 47_500);
    assert_eq!(d.deposited_usdc_shares, 0);
    assert_eq!(d.last_updated, 1);
}

#[test]
fn unknown_asset_is_an_explicit_error() {
    let mut pool = Pool { total_value: 1_000_000, total_shares: 1_000_000, interest_rate: 0 };
    let mut d = depositor(100, 100, 0);
    let pool_before = pool;
    let d_before = d;
    let r = process_withdraw(&mut pool, &mut d, 99, 1, 0);
    assert_eq!(r, Err(LendingError::UnknownAsset));
    assert_eq!(pool, pool_before);
    assert_eq!(d, d_before);
}

#[test]
fn stale_principal_cache_fails_as_underflow() {
    // The depositor's shares cover the request, but the cached principal
    // does not; the decrement is refused rather than wrapped.
    let mut pool = Pool { total_value: 1_000_000, total_shares: 1_000_000, interest_rate: 0 };
    let mut d = depositor(100, 500_000, 0);
    let pool_before = pool;
    let d_before = d;
    let r = process_withdraw(&mut pool, &mut d, USDC, 400_000, 0);
    assert_eq!(r, Err(LendingError::ArithmeticUnderflow));
    assert_eq!(pool, pool_before);
    assert_eq!(d, d_before);
}

#[test]
fn accrual_overflow_aborts_the_withdrawal() {
    let mut pool = Pool { total_value: 1_000_000, total_shares: 1_000, interest_rate: u64::MAX };
    let mut d = depositor(100, 100, 0);
    let pool_before = pool;
    let d_before = d;
    let r = process_withdraw(&mut pool, &mut d, USDC, 1, 1);
    assert_eq!(r, Err(LendingError::ArithmeticOverflow));
    assert_eq!(pool, pool_before);
    assert_eq!(d, d_before);
}

#[test]
fn withdrawal_from_the_second_asset() {
    let mut pool = Pool { total_value: 1_000, total_shares: 1_000, interest_rate: 0 };
    let mut d = Depositor {
        usdc_address: USDC,
        sol_address: SOL,
        deposited_usdc: 0,
        deposited_usdc_shares: 0,
        deposited_sol: 100,
        deposited_sol_shares: 100,
        last_updated: 10,
    };
    let r = process_withdraw(&mut pool, &mut d, SOL, 40, 10);
    assert_eq!(r, Ok(()));
    assert_eq!(pool, Pool { total_value: 960, total_shares: 960, interest_rate: 0 });
    assert_eq!(d.deposited_sol, 60);
    assert_eq!(d.deposited_sol_shares, 60);
    assert_eq!(d.deposited_usdc, 0);
    assert_eq!(d.deposited_usdc_shares, 0);
}

#[test]
fn pool_and_depositor_burn_the_same_shares() {
    // Dust case: price per share is 3, withdrawing 10 burns only
    // floor(10 / 3) = 3 shares from both ledgers alike.
    let mut pool = Pool { total_value: 300, total_shares: 100, interest_rate: 0 };
    let mut d = depositor(60, 20, 0);
    let r = process_withdraw(&mut pool, &mut d, USDC, 10, 0);
    assert_eq!(r, Ok(()));
    assert_eq!(pool, Pool { total_value: 290, total_shares: 97, interest_rate: 0 });
    assert_eq!(d.deposited_usdc, 50);
    assert_eq!(d.deposited_usdc_shares, 17);
}

#[test]
fn clock_going_backwards_counts_as_zero_elapsed() {
    assert_eq!(elapsed_since(100, 50), 0);
    assert_eq!(elapsed_since(50, 100), 50);
    assert_eq!(elapsed_since(100, 100), 0);
    assert_eq!(elapsed_since(i64::MIN, i64::MAX), u64::MAX);
    // A zero-rate withdrawal long after the last update still succeeds and
    // stamps the new time.
    let mut pool = Pool { total_value: 1_000, total_shares: 1_000, interest_rate: 0 };
    let mut d = depositor(100, 100, 10);
    let r = process_withdraw(&mut pool, &mut d, USDC, 50, 99);
    assert_eq!(r, Ok(()));
    assert_eq!(d.last_updated, 99);
    assert_eq!(d.deposited_usdc_shares, 50);
}

#[test]
fn validator_is_exact_on_the_boundary() {
    assert_eq!(validate_withdrawal(5, 5), Ok(()));
    assert_eq!(validate_withdrawal(4, 5), Err(LendingError::InsufficientFunds));
    assert_eq!(validate_withdrawal(0, 1), Err(LendingError::InsufficientFunds));
}

#[test]
fn asset_selection_prefers_the_first_match() {
    let d = Depositor {
        usdc_address: 5,
        sol_address: 5,
        deposited_usdc: 0,
        deposited_usdc_shares: 0,
        deposited_sol: 0,
        deposited_sol_shares: 0,
        last_updated: 0,
    };
    assert_eq!(d.select_asset(5), Ok(Asset::Usdc));
    assert_eq!(d.select_asset(6), Err(LendingError::UnknownAsset));
}

#[test]
fn accrue_failure_leaves_the_pool_unchanged() {
    let mut pool = Pool { total_value: u64::MAX, total_shares: 1, interest_rate: u64::MAX };
    let before = pool;
    assert_eq!(accrue(&mut pool, u64::MAX), Err(LendingError::ArithmeticOverflow));
    assert_eq!(pool, before);
}
