use lumen_finance::Error;
use lumen_finance::LumenFinance;
use lumen_finance::TokenLedger;

const CONTRACT: u32 = 10;
const USDC_TOKEN: u32 = 11;
const SHARE_TOKEN: u32 = 12;
const ADMIN: u32 = 1;
const INSURANCE: u32 = 2;
const DEPOSITOR: u32 = 3;
const BORROWER: u32 = 5;
const STRANGER: u32 = 6;

fn funded_pool() -> (LumenFinance, TokenLedger, TokenLedger) {
    let mut pool = LumenFinance::initialize(CONTRACT, USDC_TOKEN, SHARE_TOKEN, ADMIN, INSURANCE);
    let mut usdc = TokenLedger::new();
    let mut shares = TokenLedger::new();
    usdc.mint(DEPOSITOR, 1000);
    pool.deposit(&mut usdc, &mut shares, &vec![DEPOSITOR], DEPOSITOR, 1000).unwrap();
    pool.whitelist(&vec![ADMIN], BORROWER).unwrap();
    (pool, usdc, shares)
}

#[test]
fn whitelist_requires_admin() {
    let (mut pool, _, _) = funded_pool();
    let r = pool.whitelist(&vec![BORROWER], BORROWER);
    assert_eq!(r, Err(Error::AuthorizationFailure));
}

#[test]
fn deposit_requires_depositor_signature() {
    let (mut pool, mut usdc, mut shares) = funded_pool();
    usdc.mint(STRANGER, 50);
    let r = pool.deposit(&mut usdc, &mut shares, &vec![ADMIN], STRANGER, 50);
    assert_eq!(r, Err(Error::AuthorizationFailure));
    assert_eq!(usdc.balance(STRANGER), 50);
}

#[test]
fn deposit_rejects_negative_amount() {
    let (mut pool, mut usdc, mut shares) = funded_pool();
    let r = pool.deposit(&mut usdc, &mut shares, &vec![DEPOSITOR], DEPOSITOR, -1);
    assert_eq!(r, Err(Error::ArithmeticFault));
}

#[test]
fn tiny_deposit_into_large_pool_mints_zero_shares() {
    let (mut pool, mut usdc, mut shares) = funded_pool();
    // Raise the pool balance above the share supply so that a one-unit
    // deposit rounds down to zero shares: accepted behaviour, not an error.
    usdc.mint(CONTRACT, 1000);
    usdc.mint(STRANGER, 1);
    pool.deposit(&mut usdc, &mut shares, &vec![STRANGER], STRANGER, 1).unwrap();
    assert_eq!(shares.balance(STRANGER), 0);
    assert_eq!(usdc.balance(STRANGER), 0);
    assert_eq!(pool.get_shares(), 1000);
}

#[test]
fn withdraw_rejects_more_shares_than_held() {
    let (mut pool, mut usdc, mut shares) = funded_pool();
    let r = pool.withdraw(&mut usdc, &mut shares, &vec![DEPOSITOR], DEPOSITOR, 1001);
    assert_eq!(r, Err(Error::ArithmeticFault));
    assert_eq!(shares.balance(DEPOSITOR), 1000);
}

#[test]
fn withdraw_from_empty_pool_is_guarded() {
    let mut pool = LumenFinance::initialize(CONTRACT, USDC_TOKEN, SHARE_TOKEN, ADMIN, INSURANCE);
    let mut usdc = TokenLedger::new();
    let mut shares = TokenLedger::new();
    let r = pool.withdraw(&mut usdc, &mut shares, &vec![DEPOSITOR], DEPOSITOR, 0);
    assert_eq!(r, Err(Error::ArithmeticFault));
}

#[test]
fn request_loan_rejects_reused_invoice_number() {
    let (mut pool, _, _) = funded_pool();
    pool.request_loan(&vec![BORROWER], BORROWER, 800, 231, 1745156).unwrap();
    let r = pool.request_loan(&vec![BORROWER], BORROWER, 900, 231, 1745200);
    assert_eq!(r, Err(Error::LoanAlreadyExists));
    assert_eq!(pool.get_loan_details(231).unwrap().invoice_amount, 800);
}

#[test]
fn request_loan_rejects_negative_invoice() {
    let (mut pool, _, _) = funded_pool();
    let r = pool.request_loan(&vec![BORROWER], BORROWER, -800, 231, 1745156);
    assert_eq!(r, Err(Error::ArithmeticFault));
}

#[test]
fn approve_loan_requires_admin() {
    let (mut pool, _, _) = funded_pool();
    pool.request_loan(&vec![BORROWER], BORROWER, 800, 231, 1745156).unwrap();
    let r = pool.approve_loan(&vec![BORROWER], 231, 10);
    assert_eq!(r, Err(Error::AuthorizationFailure));
}

#[test]
fn approve_loan_rejects_negative_fee_rate() {
    let (mut pool, _, _) = funded_pool();
    pool.request_loan(&vec![BORROWER], BORROWER, 800, 231, 1745156).unwrap();
    let r = pool.approve_loan(&vec![ADMIN], 231, -1);
    assert_eq!(r, Err(Error::InvalidFeeRate));
}

#[test]
fn approve_loan_missing_invoice() {
    let (mut pool, _, _) = funded_pool();
    let r = pool.approve_loan(&vec![ADMIN], 999, 10);
    assert_eq!(r, Err(Error::LoanNotFound));
}

#[test]
fn approve_loan_only_once() {
    let (mut pool, _, _) = funded_pool();
    pool.request_loan(&vec![BORROWER], BORROWER, 800, 231, 1745156).unwrap();
    pool.approve_loan(&vec![ADMIN], 231, 10).unwrap();
    let r = pool.approve_loan(&vec![ADMIN], 231, 0);
    assert_eq!(r, Err(Error::LoanAlreadyApproved));
    assert_eq!(pool.get_loan_details(231).unwrap().fee_rate, 10);
}

#[test]
fn claim_loan_before_approval_fails() {
    let (mut pool, mut usdc, _) = funded_pool();
    pool.request_loan(&vec![BORROWER], BORROWER, 800, 231, 1745156).unwrap();
    let r = pool.claim_loan(&mut usdc, &vec![BORROWER], 231);
    assert_eq!(r, Err(Error::LoanNotApproved));
    assert_eq!(usdc.balance(BORROWER), 0);
}

#[test]
fn claim_loan_requires_borrower_signature() {
    let (mut pool, mut usdc, _) = funded_pool();
    pool.request_loan(&vec![BORROWER], BORROWER, 800, 231, 1745156).unwrap();
    pool.approve_loan(&vec![ADMIN], 231, 10).unwrap();
    let r = pool.claim_loan(&mut usdc, &vec![STRANGER], 231);
    assert_eq!(r, Err(Error::AuthorizationFailure));
}

#[test]
fn claim_loan_only_once() {
    let (mut pool, mut usdc, _) = funded_pool();
    pool.request_loan(&vec![BORROWER], BORROWER, 800, 231, 1745156).unwrap();
    pool.approve_loan(&vec![ADMIN], 231, 10).unwrap();
    pool.claim_loan(&mut usdc, &vec![BORROWER], 231).unwrap();
    let r = pool.claim_loan(&mut usdc, &vec![BORROWER], 231);
    assert_eq!(r, Err(Error::LoanAlreadyReleased));
    assert_eq!(usdc.balance(BORROWER), 720);
}

#[test]
fn claim_loan_missing_invoice() {
    let (mut pool, mut usdc, _) = funded_pool();
    let r = pool.claim_loan(&mut usdc, &vec![BORROWER], 999);
    assert_eq!(r, Err(Error::LoanNotFound));
}

#[test]
fn repay_loan_missing_invoice() {
    let (mut pool, mut usdc, _) = funded_pool();
    let r = pool.repay_loan(&mut usdc, &vec![BORROWER], 999, 1745157);
    assert_eq!(r, Err(Error::LoanNotFound));
}

#[test]
fn repay_unreleased_loan_fails_even_when_due() {
    // Repayment settles a released loan; a loan whose principal was never
    // disbursed cannot be settled, however late it is.
    let (mut pool, mut usdc, _) = funded_pool();
    pool.request_loan(&vec![BORROWER], BORROWER, 800, 231, 1745156).unwrap();
    pool.approve_loan(&vec![ADMIN], 231, 10).unwrap();
    usdc.mint(BORROWER, 800);
    let r = pool.repay_loan(&mut usdc, &vec![BORROWER], 231, 1745157);
    assert_eq!(r, Err(Error::LoanNotYetDueOrReleased));
    assert_eq!(usdc.balance(BORROWER), 800);
}

#[test]
fn repay_loan_succeeds_once_released_and_due() {
    let (mut pool, mut usdc, _) = funded_pool();
    pool.request_loan(&vec![BORROWER], BORROWER, 800, 231, 1745156).unwrap();
    pool.approve_loan(&vec![ADMIN], 231, 10).unwrap();
    pool.claim_loan(&mut usdc, &vec![BORROWER], 231).unwrap();
    // Not yet due: rejected. At the due date: settled.
    let early = pool.repay_loan(&mut usdc, &vec![BORROWER], 231, 1745155);
    assert_eq!(early, Err(Error::LoanNotYetDueOrReleased));
    usdc.mint(BORROWER, 80);
    let r = pool.repay_loan(&mut usdc, &vec![BORROWER], 231, 1745156);
    assert_eq!(r, Ok((800, 8)));
    assert!(pool.get_loan_details(231).unwrap().repaid);
}

#[test]
fn repay_loan_only_once() {
    let (mut pool, mut usdc, _) = funded_pool();
    pool.request_loan(&vec![BORROWER], BORROWER, 800, 231, 1745156).unwrap();
    pool.approve_loan(&vec![ADMIN], 231, 10).unwrap();
    pool.claim_loan(&mut usdc, &vec![BORROWER], 231).unwrap();
    usdc.mint(BORROWER, 800);
    pool.repay_loan(&mut usdc, &vec![BORROWER], 231, 1745157).unwrap();
    let r = pool.repay_loan(&mut usdc, &vec![BORROWER], 231, 1745157);
    assert_eq!(r, Err(Error::LoanAlreadyRepaid));
}

#[test]
fn repay_loan_insufficient_borrower_balance() {
    let (mut pool, mut usdc, _) = funded_pool();
    pool.request_loan(&vec![BORROWER], BORROWER, 800, 231, 1745156).unwrap();
    pool.approve_loan(&vec![ADMIN], 231, 10).unwrap();
    pool.claim_loan(&mut usdc, &vec![BORROWER], 231).unwrap();
    // The borrower holds only the 720 principal, not the 800 invoice.
    let r = pool.repay_loan(&mut usdc, &vec![BORROWER], 231, 1745157);
    assert_eq!(r, Err(Error::ArithmeticFault));
    assert_eq!(usdc.balance(BORROWER), 720);
}

#[test]
fn insurance_receives_its_part_on_repayment() {
    let (mut pool, mut usdc, _) = funded_pool();
    pool.request_loan(&vec![BORROWER], BORROWER, 800, 231, 1745156).unwrap();
    pool.approve_loan(&vec![ADMIN], 231, 10).unwrap();
    pool.claim_loan(&mut usdc, &vec![BORROWER], 231).unwrap();
    usdc.mint(BORROWER, 80);
    let (repaid, insurance_fee) = pool.repay_loan(&mut usdc, &vec![BORROWER], 231, 1745157).unwrap();
    assert_eq!(repaid, 800);
    assert_eq!(insurance_fee, 8);
    assert_eq!(usdc.balance(INSURANCE), 8);
    assert_eq!(pool.get_fees_earned(), 72);
}

#[test]
fn full_scenario_depositor_earns_retained_fees() {
    // Pool of 1000 deposited by one depositor (1000 shares). A whitelisted
    // borrower requests invoice 800, the admin approves at a 10 percent fee,
    // the borrower claims 720 and later repays 800. The 80 spread splits
    // into 72 retained by the pool and 8 for insurance, so redeeming all
    // 1000 shares pays out 1072.
    let (mut pool, mut usdc, mut shares) = funded_pool();
    pool.request_loan(&vec![BORROWER], BORROWER, 800, 231, 1745156).unwrap();
    pool.approve_loan(&vec![ADMIN], 231, 10).unwrap();
    let loan = pool.get_loan_details(231).unwrap();
    assert_eq!(loan.loan_amount, 800 * 90 / 100);
    pool.claim_loan(&mut usdc, &vec![BORROWER], 231).unwrap();
    assert_eq!(usdc.balance(BORROWER), 720);
    assert_eq!(pool.get_shares(), 1000);

    usdc.mint(BORROWER, 80);
    let (repaid, insurance_fee) = pool.repay_loan(&mut usdc, &vec![BORROWER], 231, 1745157).unwrap();
    assert_eq!((repaid, insurance_fee), (800, 8));
    assert_eq!(pool.get_fees_earned(), 72);

    pool.withdraw(&mut usdc, &mut shares, &vec![DEPOSITOR], DEPOSITOR, 1000).unwrap();
    assert_eq!(usdc.balance(DEPOSITOR), 1072);
    assert_eq!(pool.get_shares(), 0);
}

#[test]
fn getters_report_configuration() {
    let (pool, usdc, shares) = funded_pool();
    assert_eq!(pool.get_usdc_address(), USDC_TOKEN);
    assert_eq!(pool.share_id(), SHARE_TOKEN);
    assert_eq!(pool.get_insurance_address(), INSURANCE);
    assert_eq!(pool.get_insurance_fee_rate(), 10);
    assert_eq!(pool.get_shares(), 1000);
    assert_eq!(pool.get_fees_earned(), 0);
    assert_eq!(pool.get_user_share_balance(&usdc, &shares, DEPOSITOR), Ok(1000));
    assert_eq!(pool.get_loan_details(231), Err(Error::LoanNotFound));
}

#[test]
fn user_share_balance_guarded_without_shares() {
    let pool = LumenFinance::initialize(CONTRACT, USDC_TOKEN, SHARE_TOKEN, ADMIN, INSURANCE);
    let usdc = TokenLedger::new();
    let shares = TokenLedger::new();
    assert_eq!(pool.get_user_share_balance(&usdc, &shares, DEPOSITOR), Err(Error::ArithmeticFault));
}
