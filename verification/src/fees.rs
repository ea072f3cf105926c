use vstd::prelude::*;

use crate::errors::Error;

verus! {

/// Percentage of the fee spread that is routed to the insurance address.
pub const INSURANCE_PORTION: i128 = 10;

/// Principal disbursed for an invoice: the face value discounted by the fee
/// rate, rounded down.
pub open spec fn spec_loan_principal(invoice_amount: int, fee_rate: int) -> int {
    invoice_amount * (100 - fee_rate) / 100
}

/// Part of the fee spread retained by the pool, rounded down.
pub open spec fn spec_pool_fee(spread: int) -> int {
    spread * (100 - INSURANCE_PORTION) / 100
}

/// Part of the fee spread sent to the insurance address: the remainder of the
/// spread, so that the two parts add up to the spread exactly.
pub open spec fn spec_insurance_fee(spread: int) -> int {
    spread - spec_pool_fee(spread)
}

/// The loan principal lies between zero and the invoice's face value.
pub proof fn lemma_loan_principal_bounds(invoice_amount: int, fee_rate: int)
    requires
        invoice_amount >= 0,
        0 <= fee_rate <= 100,
    ensures
        0 <= spec_loan_principal(invoice_amount, fee_rate) <= invoice_amount,
{
    assert(0 <= invoice_amount * (100 - fee_rate) <= invoice_amount * 100) by (nonlinear_arith)
        requires
            invoice_amount >= 0,
            0 <= fee_rate <= 100,
    ;
    assert(invoice_amount * 100 / 100 == invoice_amount) by (nonlinear_arith);
    assert(invoice_amount * (100 - fee_rate) / 100 <= invoice_amount * 100 / 100) by (nonlinear_arith)
        requires
            0 <= invoice_amount * (100 - fee_rate) <= invoice_amount * 100,
    ;
    assert(invoice_amount * (100 - fee_rate) / 100 >= 0) by (nonlinear_arith)
        requires
            invoice_amount * (100 - fee_rate) >= 0,
    ;
}

/// Both parts of the fee split lie between zero and the spread.
pub proof fn lemma_fee_split_bounds(spread: int)
    requires
        spread >= 0,
    ensures
        0 <= spec_pool_fee(spread) <= spread,
        0 <= spec_insurance_fee(spread) <= spread,
{
    assert(0 <= spread * 90 <= spread * 100) by (nonlinear_arith)
        requires
            spread >= 0,
    ;
    assert(spread * 100 / 100 == spread) by (nonlinear_arith);
    assert(spread * 90 / 100 <= spread * 100 / 100) by (nonlinear_arith)
        requires
            0 <= spread * 90 <= spread * 100,
    ;
    assert(spread * 90 / 100 >= 0) by (nonlinear_arith)
        requires
            spread * 90 >= 0,
    ;
}

/// No value is created or destroyed by the fee split: the pool's part and the
/// insurance part add up to the spread between invoice amount and loan
/// amount exactly, and principal plus spread give back the invoice amount.
pub proof fn lemma_fee_split_exact(invoice_amount: int, loan_amount: int)
    requires
        0 <= loan_amount <= invoice_amount,
    ensures
        loan_amount + (invoice_amount - loan_amount) == invoice_amount,
        spec_pool_fee(invoice_amount - loan_amount) + spec_insurance_fee(invoice_amount - loan_amount)
            == invoice_amount - loan_amount,
{
}

/// Computes the loan principal for an invoice at a given fee rate.
///
/// Returns `InvalidFeeRate` for a fee rate outside 0 to 100 percent, and
/// `ArithmeticFault` for a negative face value or an overflowing product.
pub fn loan_principal(invoice_amount: i128, fee_rate: i128) -> (r: Result<i128, Error>)
    ensures
        r == Err::<i128, Error>(Error::InvalidFeeRate) <==> !(0 <= fee_rate <= 100),
        r == Err::<i128, Error>(Error::ArithmeticFault) <==> 0 <= fee_rate <= 100
            && (invoice_amount < 0 || invoice_amount * (100 - fee_rate) > i128::MAX),
        r matches Ok(p) ==> p == spec_loan_principal(invoice_amount as int, fee_rate as int)
            && 0 <= p <= invoice_amount,
        r is Ok <==> 0 <= fee_rate <= 100 && 0 <= invoice_amount
            && invoice_amount * (100 - fee_rate) <= i128::MAX,
{
    if fee_rate < 0 || fee_rate > 100 {
        return Err(Error::InvalidFeeRate);
    }
    if invoice_amount < 0 {
        return Err(Error::ArithmeticFault);
    }
    assert(invoice_amount * (100 - fee_rate) >= 0) by (nonlinear_arith)
        requires
            invoice_amount >= 0,
            0 <= fee_rate <= 100,
    ;
    match invoice_amount.checked_mul(100 - fee_rate) {
        None => Err(Error::ArithmeticFault),
        Some(p) => {
            proof {
                lemma_loan_principal_bounds(invoice_amount as int, fee_rate as int);
            }
            Ok(p / 100)
        },
    }
}

/// Splits the spread between invoice amount and loan amount into the part the
/// pool retains and the part sent to the insurance address.
///
/// Returns `ArithmeticFault` when the loan amount is negative or exceeds the
/// invoice amount, or when the product of the split overflows.
pub fn split_fees(invoice_amount: i128, loan_amount: i128) -> (r: Result<(i128, i128), Error>)
    ensures
        r is Err <==> r == Err::<(i128, i128), Error>(Error::ArithmeticFault),
        r is Ok <==> 0 <= loan_amount <= invoice_amount
            && (invoice_amount - loan_amount) * (100 - INSURANCE_PORTION) <= i128::MAX,
        r matches Ok(f) ==> ({
            let spread = invoice_amount - loan_amount;
            &&& f.0 == spec_pool_fee(spread)
            &&& f.1 == spec_insurance_fee(spread)
            &&& f.0 + f.1 == spread
            &&& 0 <= f.0 <= spread
            &&& 0 <= f.1 <= spread
        }),
{
    if loan_amount < 0 || loan_amount > invoice_amount {
        return Err(Error::ArithmeticFault);
    }
    let spread = invoice_amount - loan_amount;
    assert(spread * 90 >= 0) by (nonlinear_arith)
        requires
            spread >= 0,
    ;
    match spread.checked_mul(100 - INSURANCE_PORTION) {
        None => Err(Error::ArithmeticFault),
        Some(p) => {
            proof {
                lemma_fee_split_bounds(spread as int);
            }
            let pool_fee = p / 100;
            Ok((pool_fee, spread - pool_fee))
        },
    }
}

} // verus!
