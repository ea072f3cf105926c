use vstd::prelude::*;

use crate::errors::Error;

verus! {

/// Shares minted for a deposit. The first deposit into an empty pool sets a
/// one-to-one basis; afterwards shares are issued in proportion to the pool's
/// holding of the reference asset, rounded down.
pub open spec fn spec_deposit_shares(total_shares: int, balance_usdc: int, amount: int) -> int {
    if balance_usdc == 0 {
        amount
    } else {
        total_shares * amount / balance_usdc
    }
}

/// Reference asset paid out for a redemption: the pool's asset holding times
/// the pool's share holding after the inbound share transfer, divided by the
/// share supply before burning, rounded down.
pub open spec fn spec_withdraw_payout(balance_usdc: int, balance_shares: int, total_shares: int) -> int {
    balance_usdc * balance_shares / total_shares
}

/// Computes the shares minted for a deposit of `amount` into a pool that
/// holds `balance_usdc` of the reference asset against `total_shares`
/// outstanding shares.
///
/// Returns `ArithmeticFault` for a negative amount or an overflowing
/// product. A small deposit into a large pool can mint zero shares; that is
/// accepted behaviour, not an error.
pub fn deposit_shares(total_shares: i128, balance_usdc: i128, amount: i128) -> (r: Result<i128, Error>)
    requires
        total_shares >= 0,
        balance_usdc >= 0,
    ensures
        r is Err <==> r == Err::<i128, Error>(Error::ArithmeticFault),
        r is Err <==> amount < 0 || (balance_usdc != 0 && total_shares * amount > i128::MAX),
        r matches Ok(n) ==> n == spec_deposit_shares(total_shares as int, balance_usdc as int, amount as int)
            && n >= 0,
{
    if amount < 0 {
        return Err(Error::ArithmeticFault);
    }
    if balance_usdc == 0 {
        return Ok(amount);
    }
    assert(total_shares * amount >= 0) by (nonlinear_arith)
        requires
            total_shares >= 0,
            amount >= 0,
    ;
    match total_shares.checked_mul(amount) {
        None => Err(Error::ArithmeticFault),
        Some(p) => {
            assert(p / balance_usdc >= 0) by (nonlinear_arith)
                requires
                    p >= 0,
                    balance_usdc > 0,
            ;
            Ok(p / balance_usdc)
        },
    }
}

/// Computes the payout for redeeming shares against a pool that holds
/// `balance_usdc` of the reference asset and `balance_shares` of its own
/// share token, with `total_shares` shares outstanding.
///
/// Returns `ArithmeticFault` when no shares are outstanding (the division
/// must be guarded rather than left to trap) or when the product overflows.
pub fn withdraw_payout(balance_usdc: i128, balance_shares: i128, total_shares: i128) -> (r: Result<i128, Error>)
    requires
        balance_usdc >= 0,
        balance_shares >= 0,
        total_shares >= 0,
    ensures
        r is Err <==> r == Err::<i128, Error>(Error::ArithmeticFault),
        r is Err <==> total_shares == 0 || balance_usdc * balance_shares > i128::MAX,
        r matches Ok(p) ==> p == spec_withdraw_payout(balance_usdc as int, balance_shares as int, total_shares as int)
            && p >= 0,
{
    if total_shares == 0 {
        return Err(Error::ArithmeticFault);
    }
    assert(balance_usdc * balance_shares >= 0) by (nonlinear_arith)
        requires
            balance_usdc >= 0,
            balance_shares >= 0,
    ;
    match balance_usdc.checked_mul(balance_shares) {
        None => Err(Error::ArithmeticFault),
        Some(p) => {
            assert(p / total_shares >= 0) by (nonlinear_arith)
                requires
                    p >= 0,
                    total_shares > 0,
            ;
            Ok(p / total_shares)
        },
    }
}

/// A deposit issues shares in proportion to the amount deposited, within
/// floor-rounding tolerance: after minting `n` shares for a deposit of
/// `amount`, the depositor's fraction of the share supply is at most the
/// fraction their amount makes of the pool balance,
/// `n / (total_shares + n) <= amount / (balance_usdc + amount)`,
/// and that fraction in turn stays below `(n + 1) / (total_shares + n + 1)`.
/// Both bounds are stated multiplied out, so no rounding hides in them.
pub proof fn lemma_deposit_shares_proportional(total_shares: int, balance_usdc: int, amount: int)
    requires
        total_shares >= 0,
        balance_usdc > 0,
        amount >= 0,
    ensures
        ({
            let n = spec_deposit_shares(total_shares, balance_usdc, amount);
            &&& n * (balance_usdc + amount) <= amount * (total_shares + n)
            &&& amount * (total_shares + n + 1) < (n + 1) * (balance_usdc + amount)
        }),
{
    let n = spec_deposit_shares(total_shares, balance_usdc, amount);
    assert(balance_usdc * n <= total_shares * amount
        && total_shares * amount < balance_usdc * (n + 1)) by (nonlinear_arith)
        requires
            balance_usdc > 0,
            n == total_shares * amount / balance_usdc,
    ;
    assert(n * (balance_usdc + amount) <= amount * (total_shares + n)) by (nonlinear_arith)
        requires
            balance_usdc * n <= total_shares * amount,
    ;
    assert(amount * (total_shares + n + 1) < (n + 1) * (balance_usdc + amount)) by (nonlinear_arith)
        requires
            total_shares * amount < balance_usdc * (n + 1),
            amount >= 0,
    ;
}

/// Depositing an amount and immediately redeeming every share it minted pays
/// out no more than the amount: floor rounding favours the pool, never the
/// depositor. The payout is computed against the pool balance after the
/// deposit and the share supply after the mint, as `withdraw` computes it
/// when the redeemed shares are the pool's whole share holding.
pub proof fn lemma_round_trip_favors_pool(total_shares: int, balance_usdc: int, amount: int)
    requires
        total_shares >= 0,
        balance_usdc >= 0,
        amount >= 0,
        total_shares + spec_deposit_shares(total_shares, balance_usdc, amount) > 0,
    ensures
        spec_withdraw_payout(
            balance_usdc + amount,
            spec_deposit_shares(total_shares, balance_usdc, amount),
            total_shares + spec_deposit_shares(total_shares, balance_usdc, amount),
        ) <= amount,
{
    let n = spec_deposit_shares(total_shares, balance_usdc, amount);
    if balance_usdc == 0 {
        assert(n == amount);
    } else {
        assert(balance_usdc * n <= total_shares * amount) by (nonlinear_arith)
            requires
                balance_usdc > 0,
                n == total_shares * amount / balance_usdc,
        ;
        assert(n >= 0) by (nonlinear_arith)
            requires
                total_shares >= 0,
                amount >= 0,
                balance_usdc > 0,
                n == total_shares * amount / balance_usdc,
        ;
    }
    assert((balance_usdc + amount) * n <= amount * (total_shares + n)) by (nonlinear_arith)
        requires
            balance_usdc == 0 ==> n == amount,
            balance_usdc != 0 ==> balance_usdc * n <= total_shares * amount,
            total_shares >= 0,
            amount >= 0,
            n >= 0,
    ;
    assert((balance_usdc + amount) * n / (total_shares + n) <= amount) by (nonlinear_arith)
        requires
            total_shares + n > 0,
            amount >= 0,
            (balance_usdc + amount) * n <= amount * (total_shares + n),
    ;
}

} // verus!
