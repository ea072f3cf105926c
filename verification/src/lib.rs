//! An invoice-financing liquidity pool.
//!
//! Depositors supply a reference asset and receive pool shares that represent
//! a proportional claim on pool assets. Whitelisted borrowers request loans
//! against invoices, an administrator approves a fee rate, the borrower claims
//! the discounted principal and later repays the full invoice amount; the
//! spread between invoice amount and loan amount is split between the pool's
//! fee reserve and an insurance address.
//!
//! The crate verifies the share-accounting arithmetic and the loan-lifecycle
//! state machine on a plain-value model: an address is a small integer
//! identifier, a fungible token is a [`token_ledger::TokenLedger`] (a balance
//! table), authorization is a set of co-signing addresses handed to each
//! operation, and the ledger clock is a timestamp argument. The on-chain
//! shell that binds these to a real host lives outside the library.

mod errors;
mod fees;
mod shares;
mod loan;
mod pool;
mod token_ledger;

pub use errors::Error;
pub use fees::INSURANCE_PORTION;
pub use fees::loan_principal;
pub use fees::split_fees;
pub use fees::spec_loan_principal;
pub use fees::spec_pool_fee;
pub use fees::spec_insurance_fee;
pub use fees::lemma_loan_principal_bounds;
pub use fees::lemma_fee_split_bounds;
pub use fees::lemma_fee_split_exact;
pub use shares::deposit_shares;
pub use shares::withdraw_payout;
pub use shares::spec_deposit_shares;
pub use shares::spec_withdraw_payout;
pub use shares::lemma_deposit_shares_proportional;
pub use shares::lemma_round_trip_favors_pool;
pub use loan::LoanDetails;
pub use pool::DataKey;
pub use pool::LumenFinance;
pub use token_ledger::TokenLedger;
