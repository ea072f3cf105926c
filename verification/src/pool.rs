use vstd::prelude::*;

use std::collections::HashMap;

use crate::errors::Error;
use crate::fees::INSURANCE_PORTION;
use crate::fees::lemma_loan_principal_bounds;
use crate::fees::loan_principal;
use crate::fees::spec_insurance_fee;
use crate::fees::spec_loan_principal;
use crate::fees::spec_pool_fee;
use crate::fees::split_fees;
use crate::loan::LoanDetails;
use crate::shares::deposit_shares;
use crate::shares::spec_deposit_shares;
use crate::shares::spec_withdraw_payout;
use crate::shares::withdraw_payout;
use crate::token_ledger::TokenLedger;

verus! {

broadcast use vstd::std_specs::hash::group_hash_axioms;

/// Tags under which the pieces of the pool's singleton state are persisted
/// in a key-value store. The host shell maps each tag to a numeric storage
/// slot through [`DataKey::index`].
#[derive(Clone, Copy, Debug, PartialEq, Eq, Structural)]
pub enum DataKey {
    Usdc,
    TokenShare,
    InsuranceAddress,
    TotalShares,
    TotalLoanAmount,
    TotalOutstandingLoan,
    FeesEarned,
}

impl DataKey {
    /// Numeric storage slot of each tag.
    pub open spec fn spec_index(self) -> u32 {
        match self {
            DataKey::Usdc => 0,
            DataKey::TokenShare => 1,
            DataKey::InsuranceAddress => 2,
            DataKey::TotalShares => 3,
            DataKey::TotalLoanAmount => 4,
            DataKey::TotalOutstandingLoan => 5,
            DataKey::FeesEarned => 6,
        }
    }

    /// Numeric storage slot of each tag; distinct tags map to distinct slots.
    pub fn index(self) -> (r: u32)
        ensures
            r == self.spec_index(),
    {
        match self {
            DataKey::Usdc => 0,
            DataKey::TokenShare => 1,
            DataKey::InsuranceAddress => 2,
            DataKey::TotalShares => 3,
            DataKey::TotalLoanAmount => 4,
            DataKey::TotalOutstandingLoan => 5,
            DataKey::FeesEarned => 6,
        }
    }
}

/// The invoice-financing pool: immutable configuration, share accounting,
/// loan registry and borrower whitelist.
///
/// Addresses are plain integer identifiers. The pool's holdings of the
/// reference asset and of its own share token live in [`TokenLedger`] values
/// that the caller passes to each operation, standing for the two token
/// contracts.
pub struct LumenFinance {
    /// Address of the pool itself: the holder of pool funds.
    pub contract: u32,
    /// Address of the reference-asset token; immutable after initialize.
    pub usdc_token: u32,
    /// Address of the pool-share token; immutable after initialize.
    pub share_token: u32,
    /// Recipient of the insurance part of fees; immutable after initialize.
    pub insurance: u32,
    /// Administrator, set once at initialize and never rotated.
    pub admin: u32,
    /// Sum of all outstanding pool shares.
    pub total_shares: i128,
    /// Cumulative principal ever disbursed; never decreases.
    pub total_loan_amount: i128,
    /// Principal disbursed but not yet repaid.
    pub total_outstanding_loan: i128,
    /// Cumulative fee revenue retained by the pool; never decreases.
    pub fees_earned: i128,
    /// Borrower eligibility, mutated only by the admin; no removal exists.
    pub whitelisted: HashMap<u32, bool>,
    /// Loan records by invoice number.
    pub loans: HashMap<u32, LoanDetails>,
}

impl LumenFinance {
    /// An address is whitelisted when the admin has set its entry to true.
    pub open spec fn spec_is_whitelisted(self, addr: u32) -> bool {
        self.whitelisted@.contains_key(addr) && self.whitelisted@[addr]
    }

    /// Well-formedness of the pool state: the counters are nonnegative, no
    /// more principal is outstanding than was ever disbursed, and every loan
    /// record is well-formed.
    pub open spec fn wf(self) -> bool {
        &&& self.total_shares >= 0
        &&& self.total_loan_amount >= 0
        &&& 0 <= self.total_outstanding_loan <= self.total_loan_amount
        &&& self.fees_earned >= 0
        &&& forall|n: u32| self.loans@.contains_key(n) ==> (#[trigger] self.loans@[n]).wf()
    }

    /// The configuration set at initialize is shared by both states.
    pub open spec fn same_config(self, other: LumenFinance) -> bool {
        &&& self.contract == other.contract
        &&& self.usdc_token == other.usdc_token
        &&& self.share_token == other.share_token
        &&& self.insurance == other.insurance
        &&& self.admin == other.admin
    }

    /// Creates the pool state. Deploying the share token and setting its
    /// metadata belong to the host shell; the pool receives the addresses of
    /// the two tokens, of the administrator and of the insurance recipient,
    /// and starts with zero shares, no loans and an empty whitelist.
    pub fn initialize(contract: u32, usdc_token: u32, share_token: u32, admin: u32, insurance: u32) -> (p:
        LumenFinance)
        ensures
            p.wf(),
            p.contract == contract,
            p.usdc_token == usdc_token,
            p.share_token == share_token,
            p.admin == admin,
            p.insurance == insurance,
            p.total_shares == 0,
            p.total_loan_amount == 0,
            p.total_outstanding_loan == 0,
            p.fees_earned == 0,
            p.loans@ == Map::<u32, LoanDetails>::empty(),
            forall|a: u32| !p.spec_is_whitelisted(a),
    {
        LumenFinance {
            contract,
            usdc_token,
            share_token,
            insurance,
            admin,
            total_shares: 0,
            total_loan_amount: 0,
            total_outstanding_loan: 0,
            fees_earned: 0,
            whitelisted: HashMap::new(),
            loans: HashMap::new(),
        }
    }

    /// Result of `whitelist` on a given state: only the admin may extend the
    /// whitelist.
    pub open spec fn whitelist_outcome(self, signers: Seq<u32>, address: u32) -> Result<(), Error> {
        if !signers.contains(self.admin) {
            Err(Error::AuthorizationFailure)
        } else {
            Ok(())
        }
    }

    /// Marks a borrower as eligible to request financing. Admin-authorized;
    /// there is no operation that removes an address again.
    pub fn whitelist(&mut self, signers: &Vec<u32>, address: u32) -> (r: Result<(), Error>)
        requires
            old(self).wf(),
        ensures
            final(self).wf(),
            r == old(self).whitelist_outcome(signers@, address),
            r is Err ==> *final(self) == *old(self),
            r is Ok ==> ({
                &&& old(self).same_config(*final(self))
                &&& final(self).total_shares == old(self).total_shares
                &&& final(self).total_loan_amount == old(self).total_loan_amount
                &&& final(self).total_outstanding_loan == old(self).total_outstanding_loan
                &&& final(self).fees_earned == old(self).fees_earned
                &&& final(self).loans@ == old(self).loans@
                &&& forall|a: u32|
                    final(self).spec_is_whitelisted(a) == (old(self).spec_is_whitelisted(a) || a
                        == address)
            }),
    {
        if !is_signer(signers, self.admin) {
            return Err(Error::AuthorizationFailure);
        }
        self.whitelisted.insert(address, true);
        Ok(())
    }

    /// Result of `request_loan` on a given state: the borrower must
    /// co-sign, must be whitelisted, the invoice number must be fresh (a
    /// re-used number would silently overwrite the prior record, so it is
    /// treated as a caller error), and the face value must be nonnegative.
    pub open spec fn request_loan_outcome(
        self,
        signers: Seq<u32>,
        who: u32,
        invoice_amount: i128,
        inv_no: u32,
    ) -> Result<(), Error> {
        if !signers.contains(who) {
            Err(Error::AuthorizationFailure)
        } else if !self.spec_is_whitelisted(who) {
            Err(Error::NotWhitelisted)
        } else if self.loans@.contains_key(inv_no) {
            Err(Error::LoanAlreadyExists)
        } else if invoice_amount < 0 {
            Err(Error::ArithmeticFault)
        } else {
            Ok(())
        }
    }

    /// Creates a loan record for an invoice: fee rate and principal start at
    /// zero and every lifecycle flag is clear until approval.
    pub fn request_loan(
        &mut self,
        signers: &Vec<u32>,
        who: u32,
        invoice_amount: i128,
        inv_no: u32,
        repayment_date: u64,
    ) -> (r: Result<(), Error>)
        requires
            old(self).wf(),
        ensures
            final(self).wf(),
            r == old(self).request_loan_outcome(signers@, who, invoice_amount, inv_no),
            r is Err ==> *final(self) == *old(self),
            r is Ok ==> ({
                &&& old(self).same_config(*final(self))
                &&& final(self).total_shares == old(self).total_shares
                &&& final(self).total_loan_amount == old(self).total_loan_amount
                &&& final(self).total_outstanding_loan == old(self).total_outstanding_loan
                &&& final(self).fees_earned == old(self).fees_earned
                &&& final(self).whitelisted@ == old(self).whitelisted@
                &&& final(self).loans@ == old(self).loans@.insert(
                    inv_no,
                    (LoanDetails {
                        who,
                        fee_rate: 0,
                        invoice_amount,
                        loan_amount: 0,
                        repayment_date,
                        approved: false,
                        released: false,
                        repaid: false,
                    }),
                )
            }),
    {
        if !is_signer(signers, who) {
            return Err(Error::AuthorizationFailure);
        }
        let eligible = match self.whitelisted.get(&who) {
            Some(b) => *b,
            None => false,
        };
        if !eligible {
            return Err(Error::NotWhitelisted);
        }
        if self.loans.contains_key(&inv_no) {
            return Err(Error::LoanAlreadyExists);
        }
        if invoice_amount < 0 {
            return Err(Error::ArithmeticFault);
        }
        let loan = LoanDetails {
            who,
            fee_rate: 0,
            invoice_amount,
            loan_amount: 0,
            repayment_date,
            approved: false,
            released: false,
            repaid: false,
        };
        self.loans.insert(inv_no, loan);
        proof {
            assert forall|n: u32| self.loans@.contains_key(n) implies (#[trigger] self.loans@[n]).wf() by {
                if n != inv_no {
                    assert(old(self).loans@[n].wf());
                }
            }
        }
        Ok(())
    }

    /// Result of `approve_loan` on a given state: admin-authorized; the fee
    /// rate must lie in 0 to 100 percent; the loan must exist and must not
    /// have been approved before (the fee rate is set exactly once); the
    /// discounted principal must not overflow.
    pub open spec fn approve_loan_outcome(self, signers: Seq<u32>, inv_no: u32, fee_rate: i128) -> Result<
        (),
        Error,
    > {
        if !signers.contains(self.admin) {
            Err(Error::AuthorizationFailure)
        } else if !(0 <= fee_rate <= 100) {
            Err(Error::InvalidFeeRate)
        } else if !self.loans@.contains_key(inv_no) {
            Err(Error::LoanNotFound)
        } else if self.loans@[inv_no].approved {
            Err(Error::LoanAlreadyApproved)
        } else if self.loans@[inv_no].invoice_amount * (100 - fee_rate) > i128::MAX {
            Err(Error::ArithmeticFault)
        } else {
            Ok(())
        }
    }

    /// Approves a loan at a fee rate: stores the rate and the principal
    /// `invoice_amount * (100 - fee_rate) / 100`, rounded down, both set
    /// exactly once.
    pub fn approve_loan(&mut self, signers: &Vec<u32>, inv_no: u32, fee_rate: i128) -> (r: Result<
        (),
        Error,
    >)
        requires
            old(self).wf(),
        ensures
            final(self).wf(),
            r == old(self).approve_loan_outcome(signers@, inv_no, fee_rate),
            r is Err ==> *final(self) == *old(self),
            r is Ok ==> ({
                let l = old(self).loans@[inv_no];
                &&& old(self).same_config(*final(self))
                &&& final(self).total_shares == old(self).total_shares
                &&& final(self).total_loan_amount == old(self).total_loan_amount
                &&& final(self).total_outstanding_loan == old(self).total_outstanding_loan
                &&& final(self).fees_earned == old(self).fees_earned
                &&& final(self).whitelisted@ == old(self).whitelisted@
                &&& final(self).loans@ == old(self).loans@.insert(
                    inv_no,
                    (LoanDetails {
                        who: l.who,
                        fee_rate,
                        invoice_amount: l.invoice_amount,
                        loan_amount: spec_loan_principal(
                            l.invoice_amount as int,
                            fee_rate as int,
                        ) as i128,
                        repayment_date: l.repayment_date,
                        approved: true,
                        released: false,
                        repaid: false,
                    }),
                )
            }),
    {
        if !is_signer(signers, self.admin) {
            return Err(Error::AuthorizationFailure);
        }
        if fee_rate < 0 || fee_rate > 100 {
            return Err(Error::InvalidFeeRate);
        }
        let l = match self.loans.get(&inv_no) {
            None => {
                return Err(Error::LoanNotFound);
            },
            Some(l) => *l,
        };
        if l.approved {
            return Err(Error::LoanAlreadyApproved);
        }
        let principal = match loan_principal(l.invoice_amount, fee_rate) {
            Err(e) => {
                return Err(e);
            },
            Ok(p) => p,
        };
        let updated = LoanDetails {
            who: l.who,
            fee_rate,
            invoice_amount: l.invoice_amount,
            loan_amount: principal,
            repayment_date: l.repayment_date,
            approved: true,
            released: false,
            repaid: false,
        };
        self.loans.insert(inv_no, updated);
        proof {
            assert forall|n: u32| self.loans@.contains_key(n) implies (#[trigger] self.loans@[n]).wf() by {
                if n != inv_no {
                    assert(old(self).loans@[n].wf());
                }
            }
        }
        Ok(())
    }

    /// Machine-limit faults of a deposit: a negative amount, an overflow of
    /// the share issuance product, of the recipient's share balance or of
    /// the share supply, or a reference-asset transfer the depositor's
    /// balance cannot cover.
    pub open spec fn deposit_fault(
        self,
        usdc: TokenLedger,
        shares: TokenLedger,
        from: u32,
        amount: i128,
    ) -> bool {
        let bal = usdc.balance_of(self.contract);
        let n = spec_deposit_shares(self.total_shares as int, bal, amount as int);
        ||| amount < 0
        ||| (bal != 0 && self.total_shares * amount > i128::MAX)
        ||| !shares.can_mint(from, n)
        ||| self.total_shares + n > i128::MAX
        ||| !usdc.can_transfer(from, self.contract, amount as int)
    }

    /// Result of `deposit` on a given state: the depositor must co-sign,
    /// and the arithmetic must go through.
    pub open spec fn deposit_outcome(
        self,
        usdc: TokenLedger,
        shares: TokenLedger,
        signers: Seq<u32>,
        from: u32,
        amount: i128,
    ) -> Result<(), Error> {
        if !signers.contains(from) {
            Err(Error::AuthorizationFailure)
        } else if self.deposit_fault(usdc, shares, from, amount) {
            Err(Error::ArithmeticFault)
        } else {
            Ok(())
        }
    }

    /// Deposits `amount` of the reference asset and mints pool shares to the
    /// depositor.
    ///
    /// The pool's holding of the reference asset is read before the deposit
    /// is applied: the first deposit into an empty pool mints shares one to
    /// one, later deposits mint `total_shares * amount / balance`, rounded
    /// down — a small deposit into a large pool can mint zero shares. The
    /// shares are minted first and the reference asset is then pulled into
    /// the pool; on any fault nothing changes at all.
    pub fn deposit(
        &mut self,
        usdc: &mut TokenLedger,
        shares: &mut TokenLedger,
        signers: &Vec<u32>,
        from: u32,
        amount: i128,
    ) -> (r: Result<(), Error>)
        requires
            old(self).wf(),
            old(usdc).wf(),
            old(shares).wf(),
        ensures
            final(self).wf(),
            final(usdc).wf(),
            final(shares).wf(),
            r == old(self).deposit_outcome(*old(usdc), *old(shares), signers@, from, amount),
            r is Err ==> *final(self) == *old(self) && *final(usdc) == *old(usdc) && *final(shares)
                == *old(shares),
            r is Ok ==> ({
                let bal = old(usdc).balance_of(old(self).contract);
                let n = spec_deposit_shares(old(self).total_shares as int, bal, amount as int);
                &&& old(self).same_config(*final(self))
                &&& final(self).total_shares == old(self).total_shares + n
                &&& final(self).total_loan_amount == old(self).total_loan_amount
                &&& final(self).total_outstanding_loan == old(self).total_outstanding_loan
                &&& final(self).fees_earned == old(self).fees_earned
                &&& final(self).loans@ == old(self).loans@
                &&& final(self).whitelisted@ == old(self).whitelisted@
                &&& final(shares).balance_of(from) == old(shares).balance_of(from) + n
                &&& forall|a: u32|
                    a != from ==> final(shares).balance_of(a) == old(shares).balance_of(a)
                &&& forall|a: u32|
                    final(usdc).balance_of(a) == old(usdc).balance_of(a) + (if a == old(
                        self,
                    ).contract {
                        amount as int
                    } else {
                        0
                    }) - (if a == from {
                        amount as int
                    } else {
                        0
                    })
            }),
    {
        if !is_signer(signers, from) {
            return Err(Error::AuthorizationFailure);
        }
        if amount < 0 {
            return Err(Error::ArithmeticFault);
        }
        let bal = usdc.balance(self.contract);
        let n = match deposit_shares(self.total_shares, bal, amount) {
            Err(e) => {
                return Err(e);
            },
            Ok(n) => n,
        };
        let sb = shares.balance(from);
        if sb > i128::MAX - n {
            return Err(Error::ArithmeticFault);
        }
        if self.total_shares > i128::MAX - n {
            return Err(Error::ArithmeticFault);
        }
        let ub = usdc.balance(from);
        if ub < amount {
            return Err(Error::ArithmeticFault);
        }
        if from != self.contract && bal > i128::MAX - amount {
            return Err(Error::ArithmeticFault);
        }
        shares.mint(from, n);
        self.total_shares = self.total_shares + n;
        usdc.transfer(from, self.contract, amount);
        Ok(())
    }

    /// Machine-limit faults of a withdrawal: a share transfer the redeemer's
    /// balance cannot cover, redeeming more shares than are outstanding, an
    /// empty share supply (the division must be guarded rather than left to
    /// trap), an overflow of the payout product, or a payout the pool's
    /// asset holding cannot cover.
    pub open spec fn withdraw_fault(
        self,
        usdc: TokenLedger,
        shares: TokenLedger,
        to: u32,
        share_amount: i128,
    ) -> bool {
        let bal = usdc.balance_of(self.contract);
        let bs = shares.balance_of(self.contract) + (if to == self.contract {
            0
        } else {
            share_amount as int
        });
        let w = spec_withdraw_payout(bal, bs, self.total_shares as int);
        ||| !shares.can_transfer(to, self.contract, share_amount as int)
        ||| share_amount > self.total_shares
        ||| self.total_shares == 0
        ||| bal * bs > i128::MAX
        ||| w > bal
        ||| (to != self.contract && usdc.balance_of(to) + w > i128::MAX)
    }

    /// Result of `withdraw` on a given state: the redeemer must co-sign,
    /// and the arithmetic must go through.
    pub open spec fn withdraw_outcome(
        self,
        usdc: TokenLedger,
        shares: TokenLedger,
        signers: Seq<u32>,
        to: u32,
        share_amount: i128,
    ) -> Result<(), Error> {
        if !signers.contains(to) {
            Err(Error::AuthorizationFailure)
        } else if self.withdraw_fault(usdc, shares, to, share_amount) {
            Err(Error::ArithmeticFault)
        } else {
            Ok(())
        }
    }

    /// Redeems `share_amount` pool shares for the reference asset.
    ///
    /// The shares are first transferred into the pool; the payout is the
    /// pool's asset holding times its share holding after that transfer,
    /// divided by the share supply before burning, rounded down in the
    /// pool's favour. The redeemed shares are then burned and the payout is
    /// transferred out; on any fault nothing changes at all.
    pub fn withdraw(
        &mut self,
        usdc: &mut TokenLedger,
        shares: &mut TokenLedger,
        signers: &Vec<u32>,
        to: u32,
        share_amount: i128,
    ) -> (r: Result<(), Error>)
        requires
            old(self).wf(),
            old(usdc).wf(),
            old(shares).wf(),
        ensures
            final(self).wf(),
            final(usdc).wf(),
            final(shares).wf(),
            r == old(self).withdraw_outcome(*old(usdc), *old(shares), signers@, to, share_amount),
            r is Err ==> *final(self) == *old(self) && *final(usdc) == *old(usdc) && *final(shares)
                == *old(shares),
            r is Ok ==> ({
                let bal = old(usdc).balance_of(old(self).contract);
                let bs = old(shares).balance_of(old(self).contract) + (if to == old(
                    self,
                ).contract {
                    0
                } else {
                    share_amount as int
                });
                let w = spec_withdraw_payout(bal, bs, old(self).total_shares as int);
                &&& old(self).same_config(*final(self))
                &&& final(self).total_shares == old(self).total_shares - share_amount
                &&& final(self).total_loan_amount == old(self).total_loan_amount
                &&& final(self).total_outstanding_loan == old(self).total_outstanding_loan
                &&& final(self).fees_earned == old(self).fees_earned
                &&& final(self).loans@ == old(self).loans@
                &&& final(self).whitelisted@ == old(self).whitelisted@
                &&& forall|a: u32|
                    final(shares).balance_of(a) == old(shares).balance_of(a) - (if a == to {
                        share_amount as int
                    } else {
                        0
                    })
                &&& forall|a: u32|
                    final(usdc).balance_of(a) == old(usdc).balance_of(a) + (if a == to {
                        w
                    } else {
                        0
                    }) - (if a == old(self).contract {
                        w
                    } else {
                        0
                    })
            }),
    {
        if !is_signer(signers, to) {
            return Err(Error::AuthorizationFailure);
        }
        if share_amount < 0 {
            return Err(Error::ArithmeticFault);
        }
        let tb = shares.balance(to);
        if tb < share_amount {
            return Err(Error::ArithmeticFault);
        }
        let bs0 = shares.balance(self.contract);
        if to != self.contract && bs0 > i128::MAX - share_amount {
            return Err(Error::ArithmeticFault);
        }
        if share_amount > self.total_shares {
            return Err(Error::ArithmeticFault);
        }
        let bs = if to == self.contract {
            bs0
        } else {
            bs0 + share_amount
        };
        let bal = usdc.balance(self.contract);
        let w = match withdraw_payout(bal, bs, self.total_shares) {
            Err(e) => {
                return Err(e);
            },
            Ok(w) => w,
        };
        if w > bal {
            return Err(Error::ArithmeticFault);
        }
        let ob = usdc.balance(to);
        if to != self.contract && ob > i128::MAX - w {
            return Err(Error::ArithmeticFault);
        }
        shares.transfer(to, self.contract, share_amount);
        shares.burn(self.contract, share_amount);
        self.total_shares = self.total_shares - share_amount;
        usdc.transfer(self.contract, to, w);
        Ok(())
    }

    /// Machine-limit faults of a claim: a principal transfer the pool's
    /// asset holding cannot cover, or an overflow of the cumulative
    /// principal counter.
    pub open spec fn claim_fault(self, usdc: TokenLedger, loan: LoanDetails) -> bool {
        ||| !usdc.can_transfer(self.contract, loan.who, loan.loan_amount as int)
        ||| self.total_loan_amount + loan.loan_amount > i128::MAX
    }

    /// Result of `claim_loan` on a given state: the loan must exist, its
    /// borrower must co-sign, the loan must be approved and its principal
    /// must not have been disbursed before.
    pub open spec fn claim_loan_outcome(self, usdc: TokenLedger, signers: Seq<u32>, inv_no: u32) -> Result<
        (),
        Error,
    > {
        if !self.loans@.contains_key(inv_no) {
            Err(Error::LoanNotFound)
        } else if !signers.contains(self.loans@[inv_no].who) {
            Err(Error::AuthorizationFailure)
        } else if !self.loans@[inv_no].approved {
            Err(Error::LoanNotApproved)
        } else if self.loans@[inv_no].released {
            Err(Error::LoanAlreadyReleased)
        } else if self.claim_fault(usdc, self.loans@[inv_no]) {
            Err(Error::ArithmeticFault)
        } else {
            Ok(())
        }
    }

    /// Disburses the principal of an approved loan to its borrower, marks
    /// the loan released, and adds the principal to both the cumulative and
    /// the outstanding principal counters. On any fault nothing changes at
    /// all.
    pub fn claim_loan(
        &mut self,
        usdc: &mut TokenLedger,
        signers: &Vec<u32>,
        inv_no: u32,
    ) -> (r: Result<(), Error>)
        requires
            old(self).wf(),
            old(usdc).wf(),
        ensures
            final(self).wf(),
            final(usdc).wf(),
            r == old(self).claim_loan_outcome(*old(usdc), signers@, inv_no),
            r is Err ==> *final(self) == *old(self) && *final(usdc) == *old(usdc),
            r is Ok ==> ({
                let l = old(self).loans@[inv_no];
                &&& old(self).same_config(*final(self))
                &&& final(self).total_shares == old(self).total_shares
                &&& final(self).total_loan_amount == old(self).total_loan_amount + l.loan_amount
                &&& final(self).total_outstanding_loan == old(self).total_outstanding_loan
                    + l.loan_amount
                &&& final(self).fees_earned == old(self).fees_earned
                &&& final(self).whitelisted@ == old(self).whitelisted@
                &&& final(self).loans@ == old(self).loans@.insert(
                    inv_no,
                    (LoanDetails { released: true, ..l }),
                )
                &&& forall|a: u32|
                    final(usdc).balance_of(a) == old(usdc).balance_of(a) + (if a == l.who {
                        l.loan_amount as int
                    } else {
                        0
                    }) - (if a == old(self).contract {
                        l.loan_amount as int
                    } else {
                        0
                    })
            }),
    {
        let l = match self.loans.get(&inv_no) {
            None => {
                return Err(Error::LoanNotFound);
            },
            Some(l) => *l,
        };
        if !is_signer(signers, l.who) {
            return Err(Error::AuthorizationFailure);
        }
        if !l.approved {
            return Err(Error::LoanNotApproved);
        }
        if l.released {
            return Err(Error::LoanAlreadyReleased);
        }
        proof {
            lemma_loan_principal_bounds(l.invoice_amount as int, l.fee_rate as int);
        }
        let cb = usdc.balance(self.contract);
        if cb < l.loan_amount {
            return Err(Error::ArithmeticFault);
        }
        let wb = usdc.balance(l.who);
        if l.who != self.contract && wb > i128::MAX - l.loan_amount {
            return Err(Error::ArithmeticFault);
        }
        if self.total_loan_amount > i128::MAX - l.loan_amount {
            return Err(Error::ArithmeticFault);
        }
        usdc.transfer(self.contract, l.who, l.loan_amount);
        let updated = LoanDetails { released: true, ..l };
        self.loans.insert(inv_no, updated);
        self.total_loan_amount = self.total_loan_amount + l.loan_amount;
        self.total_outstanding_loan = self.total_outstanding_loan + l.loan_amount;
        proof {
            assert forall|n: u32| self.loans@.contains_key(n) implies (#[trigger] self.loans@[n]).wf() by {
                if n != inv_no {
                    assert(old(self).loans@[n].wf());
                }
            }
        }
        Ok(())
    }

    /// Machine-limit faults of a repayment: an overflow of the fee-split
    /// product, an invoice transfer the borrower's balance cannot cover, an
    /// outstanding-principal counter smaller than the principal being
    /// settled, an overflow of the fee counter, or an insurance transfer
    /// that the pool could not cover or that would overflow the insurance
    /// balance.
    pub open spec fn repay_fault(self, usdc: TokenLedger, loan: LoanDetails) -> bool {
        let spread = loan.invoice_amount - loan.loan_amount;
        let pool_fee = spec_pool_fee(spread);
        let ins_fee = spec_insurance_fee(spread);
        let cb = usdc.balance_of(self.contract);
        let cb2 = if loan.who == self.contract {
            cb
        } else {
            cb + loan.invoice_amount
        };
        let insb2 = if self.insurance == self.contract {
            cb2
        } else if self.insurance == loan.who {
            usdc.balance_of(loan.who) - loan.invoice_amount
        } else {
            usdc.balance_of(self.insurance)
        };
        ||| spread * (100 - INSURANCE_PORTION) > i128::MAX
        ||| !usdc.can_transfer(loan.who, self.contract, loan.invoice_amount as int)
        ||| self.total_outstanding_loan < loan.loan_amount
        ||| self.fees_earned + pool_fee > i128::MAX
        ||| ins_fee > cb2
        ||| (self.insurance != self.contract && insb2 + ins_fee > i128::MAX)
    }

    /// Result of `repay_loan` on a given state: the loan must exist, its
    /// borrower must co-sign, the loan must not have been settled before,
    /// and it must be released with its repayment date reached.
    pub open spec fn repay_loan_outcome(
        self,
        usdc: TokenLedger,
        signers: Seq<u32>,
        inv_no: u32,
        now: u64,
    ) -> Result<(i128, i128), Error> {
        let loan = self.loans@[inv_no];
        if !self.loans@.contains_key(inv_no) {
            Err(Error::LoanNotFound)
        } else if !signers.contains(loan.who) {
            Err(Error::AuthorizationFailure)
        } else if loan.repaid {
            Err(Error::LoanAlreadyRepaid)
        } else if !(loan.released && now >= loan.repayment_date) {
            Err(Error::LoanNotYetDueOrReleased)
        } else if self.repay_fault(usdc, loan) {
            Err(Error::ArithmeticFault)
        } else {
            Ok(
                (
                    loan.invoice_amount,
                    spec_insurance_fee(loan.invoice_amount - loan.loan_amount) as i128,
                ),
            )
        }
    }

    /// Settles a released loan once its repayment date is reached: pulls the
    /// full invoice amount from the borrower, marks the loan repaid, removes
    /// the principal from the outstanding counter, adds the pool's part of
    /// the spread to the fee counter and sends the insurance part to the
    /// insurance address. Returns the invoice amount and the insurance part.
    /// On any fault nothing changes at all.
    pub fn repay_loan(
        &mut self,
        usdc: &mut TokenLedger,
        signers: &Vec<u32>,
        inv_no: u32,
        now: u64,
    ) -> (r: Result<(i128, i128), Error>)
        requires
            old(self).wf(),
            old(usdc).wf(),
        ensures
            final(self).wf(),
            final(usdc).wf(),
            r == old(self).repay_loan_outcome(*old(usdc), signers@, inv_no, now),
            r is Err ==> *final(self) == *old(self) && *final(usdc) == *old(usdc),
            r is Ok ==> ({
                let l = old(self).loans@[inv_no];
                let spread = l.invoice_amount - l.loan_amount;
                let pool_fee = spec_pool_fee(spread);
                let ins_fee = spec_insurance_fee(spread);
                &&& old(self).same_config(*final(self))
                &&& final(self).total_shares == old(self).total_shares
                &&& final(self).total_loan_amount == old(self).total_loan_amount
                &&& final(self).total_outstanding_loan == old(self).total_outstanding_loan
                    - l.loan_amount
                &&& final(self).fees_earned == old(self).fees_earned + pool_fee
                &&& final(self).whitelisted@ == old(self).whitelisted@
                &&& final(self).loans@ == old(self).loans@.insert(
                    inv_no,
                    (LoanDetails { repaid: true, ..l }),
                )
                &&& forall|a: u32|
                    final(usdc).balance_of(a) == old(usdc).balance_of(a) + (if a == old(
                        self,
                    ).contract {
                        l.invoice_amount as int
                    } else {
                        0
                    }) - (if a == l.who {
                        l.invoice_amount as int
                    } else {
                        0
                    }) + (if a == old(self).insurance {
                        ins_fee
                    } else {
                        0
                    }) - (if a == old(self).contract {
                        ins_fee
                    } else {
                        0
                    })
            }),
    {
        let l = match self.loans.get(&inv_no) {
            None => {
                return Err(Error::LoanNotFound);
            },
            Some(l) => *l,
        };
        if !is_signer(signers, l.who) {
            return Err(Error::AuthorizationFailure);
        }
        if l.repaid {
            return Err(Error::LoanAlreadyRepaid);
        }
        if !(l.released && now >= l.repayment_date) {
            return Err(Error::LoanNotYetDueOrReleased);
        }
        proof {
            lemma_loan_principal_bounds(l.invoice_amount as int, l.fee_rate as int);
        }
        let (pool_fee, ins_fee) = match split_fees(l.invoice_amount, l.loan_amount) {
            Err(e) => {
                return Err(e);
            },
            Ok(t) => t,
        };
        let wb = usdc.balance(l.who);
        if wb < l.invoice_amount {
            return Err(Error::ArithmeticFault);
        }
        let cb = usdc.balance(self.contract);
        if l.who != self.contract && cb > i128::MAX - l.invoice_amount {
            return Err(Error::ArithmeticFault);
        }
        if self.total_outstanding_loan < l.loan_amount {
            return Err(Error::ArithmeticFault);
        }
        if self.fees_earned > i128::MAX - pool_fee {
            return Err(Error::ArithmeticFault);
        }
        let cb2 = if l.who == self.contract {
            cb
        } else {
            cb + l.invoice_amount
        };
        if ins_fee > cb2 {
            return Err(Error::ArithmeticFault);
        }
        if self.insurance != self.contract {
            let insb2 = if self.insurance == l.who {
                wb - l.invoice_amount
            } else {
                usdc.balance(self.insurance)
            };
            if insb2 > i128::MAX - ins_fee {
                return Err(Error::ArithmeticFault);
            }
        }
        usdc.transfer(l.who, self.contract, l.invoice_amount);
        let updated = LoanDetails { repaid: true, ..l };
        self.loans.insert(inv_no, updated);
        self.total_outstanding_loan = self.total_outstanding_loan - l.loan_amount;
        self.fees_earned = self.fees_earned + pool_fee;
        usdc.transfer(self.contract, self.insurance, ins_fee);
        proof {
            assert forall|n: u32| self.loans@.contains_key(n) implies (#[trigger] self.loans@[n]).wf() by {
                if n != inv_no {
                    assert(old(self).loans@[n].wf());
                }
            }
        }
        Ok((l.invoice_amount, ins_fee))
    }

    /// Value of a holder's shares in the reference asset at the current
    /// share price: the holder's share balance times the pool's asset
    /// holding, divided by the share supply, rounded down.
    pub fn get_user_share_balance(
        &self,
        usdc: &TokenLedger,
        shares: &TokenLedger,
        who: u32,
    ) -> (r: Result<i128, Error>)
        requires
            self.wf(),
            usdc.wf(),
            shares.wf(),
        ensures
            r is Err <==> r == Err::<i128, Error>(Error::ArithmeticFault),
            r is Err <==> self.total_shares == 0 || usdc.balance_of(self.contract)
                * shares.balance_of(who) > i128::MAX,
            r matches Ok(v) ==> v == usdc.balance_of(self.contract) * shares.balance_of(who)
                / (self.total_shares as int),
    {
        let b = shares.balance(who);
        let bal = usdc.balance(self.contract);
        withdraw_payout(bal, b, self.total_shares)
    }

    /// Address of the reference-asset token.
    pub fn get_usdc_address(&self) -> (r: u32)
        ensures
            r == self.usdc_token,
    {
        self.usdc_token
    }

    /// Address of the pool-share token.
    pub fn share_id(&self) -> (r: u32)
        ensures
            r == self.share_token,
    {
        self.share_token
    }

    /// Sum of all outstanding pool shares.
    pub fn get_shares(&self) -> (r: i128)
        ensures
            r == self.total_shares,
    {
        self.total_shares
    }

    /// The loan record under an invoice number.
    pub fn get_loan_details(&self, inv_no: u32) -> (r: Result<LoanDetails, Error>)
        ensures
            r matches Ok(l) ==> self.loans@.contains_key(inv_no) && l == self.loans@[inv_no],
            r is Err <==> r == Err::<LoanDetails, Error>(Error::LoanNotFound),
            r is Err <==> !self.loans@.contains_key(inv_no),
    {
        match self.loans.get(&inv_no) {
            None => Err(Error::LoanNotFound),
            Some(l) => Ok(*l),
        }
    }

    /// Percentage of the fee spread routed to the insurance address.
    pub fn get_insurance_fee_rate(&self) -> (r: i128)
        ensures
            r == INSURANCE_PORTION,
    {
        INSURANCE_PORTION
    }

    /// Recipient of the insurance part of fees.
    pub fn get_insurance_address(&self) -> (r: u32)
        ensures
            r == self.insurance,
    {
        self.insurance
    }

    /// Cumulative fee revenue retained by the pool.
    pub fn get_fees_earned(&self) -> (r: i128)
        ensures
            r == self.fees_earned,
    {
        self.fees_earned
    }
}

/// Whether the given principal co-signed the call: the authorization gate of
/// every state-mutating operation.
fn is_signer(signers: &Vec<u32>, addr: u32) -> (r: bool)
    ensures
        r == signers@.contains(addr),
{
    let mut i: usize = 0;
    while i < signers.len()
        invariant
            0 <= i <= signers@.len(),
            forall|j: int| 0 <= j < i ==> signers@[j] != addr,
        decreases signers@.len() - i,
    {
        if signers[i] == addr {
            assert(signers@[i as int] == addr);
            return true;
        }
        i = i + 1;
    }
    assert(!signers@.contains(addr));
    false
}

} // verus!
