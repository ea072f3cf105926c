use vstd::prelude::*;

use crate::fees::spec_loan_principal;

verus! {

/// A loan against an invoice, keyed by invoice number in the pool's loan
/// registry. A record is created by `request_loan`, mutated by
/// `approve_loan`, `claim_loan` and `repay_loan`, and never deleted; its
/// terminal state is `repaid`.
#[derive(Clone, Copy, Debug, PartialEq, Eq, Structural)]
pub struct LoanDetails {
    /// Borrower address; immutable after creation.
    pub who: u32,
    /// Fee percentage in 0 to 100, set exactly once at approval; zero until
    /// then.
    pub fee_rate: i128,
    /// Face value of the invoice; immutable after creation.
    pub invoice_amount: i128,
    /// Principal to disburse, computed exactly once at approval from the
    /// invoice amount and the fee rate; zero until then.
    pub loan_amount: i128,
    /// Ledger time at which the invoice falls due; immutable after creation.
    pub repayment_date: u64,
    /// Set by `approve_loan`.
    pub approved: bool,
    /// Set by `claim_loan` when the principal is disbursed.
    pub released: bool,
    /// Set by `repay_loan` when the invoice is settled.
    pub repaid: bool,
}

impl LoanDetails {
    /// Well-formedness of a loan record: the face value is nonnegative, the
    /// fee rate stays in range, the principal is exactly the discounted face
    /// value once approved and zero before, and the lifecycle flags form an
    /// ordered progression (released only if approved, repaid only if
    /// released).
    pub open spec fn wf(self) -> bool {
        &&& self.invoice_amount >= 0
        &&& 0 <= self.fee_rate <= 100
        &&& (self.approved ==> self.loan_amount == spec_loan_principal(
            self.invoice_amount as int,
            self.fee_rate as int,
        ))
        &&& (!self.approved ==> self.fee_rate == 0 && self.loan_amount == 0)
        &&& (self.released ==> self.approved)
        &&& (self.repaid ==> self.released)
    }
}

} // verus!
