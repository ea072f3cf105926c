use vstd::prelude::*;

verus! {

/// Faults that abort a pool operation.
///
/// Every operation of the pool is atomic: when it returns an error, no state
/// was changed. The lifecycle of a loan is strictly ordered
/// (requested, approved, released, repaid) and never skips or repeats a
/// state; the `LoanAlready*` variants reject the calls that would repeat one.
#[derive(Clone, Copy, Debug, PartialEq, Eq, Structural)]
pub enum Error {
    /// The required principal is not among the co-signers of the call.
    AuthorizationFailure,
    /// The borrower is not whitelisted.
    NotWhitelisted,
    /// No loan record exists under the given invoice number.
    LoanNotFound,
    /// A loan record already exists under the given invoice number;
    /// re-using an invoice number would silently overwrite it.
    LoanAlreadyExists,
    /// The loan has not been approved yet.
    LoanNotApproved,
    /// The loan was already approved; the fee rate is set exactly once.
    LoanAlreadyApproved,
    /// The principal of the loan was already disbursed.
    LoanAlreadyReleased,
    /// The loan was already settled.
    LoanAlreadyRepaid,
    /// The loan has not been released, or its repayment date lies ahead.
    LoanNotYetDueOrReleased,
    /// A fee rate outside the range 0 to 100 percent.
    InvalidFeeRate,
    /// Overflow, division by zero, a negative amount, or a balance that
    /// cannot cover a transfer.
    ArithmeticFault,
}

} // verus!
