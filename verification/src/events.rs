//! The loan events a timeline can carry, and the loan's configuration values.
//!
//! All monetary fields are fixed-point integers in micro-units of currency
//! (see [`crate::money::SCALE`]); interest rates are fixed-point percentages
//! in micro-percent.

use vstd::prelude::*;

verus! {

/// Each variant of a LoanEvent details the various events that can occur
/// for the lifetime of the loan.
#[derive(Clone, Debug)]
pub enum LoanEvent {
    /// The initial loan event - this is the point where the loan is constructed.
    Initial(LoanInitialization),
    /// An interest change is scheduled - at this point in time the interest will
    /// be altered to a different rate.
    InterestChange(LoanInterestChange),
    /// A transfer of the loan between banks.
    BankTransfer(LoanTransfer),
    /// New capital injected into the loan.
    Refinance(LoanRefinance),
    /// Extra scheduled installments for a period of time.
    Extra(LoanRecurringExtraInstallments),
    /// A repayment freeze: only interest will be owed for a number of terms.
    RepaymentFreeze(LoanRepaymentFreeze),
}

impl LoanEvent {
    /// The initialization payload of an `Initial` event.
    pub(crate) fn initial(&self) -> (r: &LoanInitialization)
        requires
            self is Initial,
        ensures
            *r == self->Initial_0,
    {
        match self {
            LoanEvent::Initial(d) => d,
            _ => vstd::pervasive::unreached(),
        }
    }
}

/// The day of the month an installment is due on.
#[derive(Clone, Copy, Debug)]
pub enum MonthlyDueDate {
    /// The 1st of the month.
    First,
    /// The 15th of the month.
    Mid,
    /// The end, be it 28, 29, 30 or 31.
    End,
    /// An explicit day in the range 1-31.
    Date(u32),
}

impl MonthlyDueDate {
    /// The due day this convention resolves to, before calendar clamping.
    pub open spec fn spec_due_day(self) -> int {
        match self {
            MonthlyDueDate::First => 1,
            MonthlyDueDate::Mid => 15,
            MonthlyDueDate::End => 31,
            MonthlyDueDate::Date(d) => d as int,
        }
    }

    /// The due day of the month for this convention.
    pub fn to_u32(&self) -> (r: u32)
        ensures
            r == self.spec_due_day(),
    {
        match self {
            MonthlyDueDate::First => 1,
            MonthlyDueDate::Mid => 15,
            MonthlyDueDate::End => 31,
            MonthlyDueDate::Date(d) => *d,
        }
    }
}

/// How many installments per year a loan is configured to have.
#[derive(Clone, Copy, Debug)]
pub enum TermsPerYear {
    One,
    Two,
    Three,
    Four,
    Six,
    Twelve,
}

impl TermsPerYear {
    /// The number of terms per year, as a number.
    pub open spec fn spec_terms(self) -> int {
        match self {
            TermsPerYear::One => 1,
            TermsPerYear::Two => 2,
            TermsPerYear::Three => 3,
            TermsPerYear::Four => 4,
            TermsPerYear::Six => 6,
            TermsPerYear::Twelve => 12,
        }
    }

    /// The number of months between two installments: twelve months spread
    /// evenly over the configured number of terms.
    pub open spec fn spec_month_step(self) -> int {
        12int / self.spec_terms()
    }

    /// The number of terms per year, as a number.
    pub fn to_u32(&self) -> (r: u32)
        ensures
            r == self.spec_terms(),
    {
        match self {
            TermsPerYear::One => 1,
            TermsPerYear::Two => 2,
            TermsPerYear::Three => 3,
            TermsPerYear::Four => 4,
            TermsPerYear::Six => 6,
            TermsPerYear::Twelve => 12,
        }
    }

    /// The month interval between installments.
    pub(crate) fn month_step(&self) -> (r: i64)
        ensures
            r == self.spec_month_step(),
            1 <= r <= 12,
    {
        match self {
            TermsPerYear::One => 12,
            TermsPerYear::Two => 6,
            TermsPerYear::Three => 4,
            TermsPerYear::Four => 3,
            TermsPerYear::Six => 2,
            TermsPerYear::Twelve => 1,
        }
    }
}

/// The initial state of a loan.
///
/// `loan`, `administration_fee` and `installment_fee` are amounts in
/// micro-units of currency; `nominal_interest` is the yearly nominal rate in
/// micro-percent.
#[derive(Clone, Copy, Debug)]
pub struct LoanInitialization {
    /// The total loan sum.
    pub loan: i64,
    /// Nominal interest advertised by the loan provider.
    pub nominal_interest: i64,
    /// A fee charged for issuing the loan, added to the loan sum.
    pub administration_fee: i64,
    /// The fee added to each re-payment installment.
    pub installment_fee: i64,
    /// The number of terms this loan should be downpayed over.
    pub terms: u32,
    /// The number of terms per year.
    pub terms_per_year: TermsPerYear,
    /// The time of month, if within a term month, an installment is due.
    pub due_within_month: MonthlyDueDate,
    /// The first month (1-12) after the payout date that an installment is
    /// due. The day within this month follows `due_within_month`.
    pub first_installment_month: u32,
}

/// A transfer of a loan from one bank to another. Terms and installment
/// dates carry over from the last bank.
#[derive(Clone, Copy, Debug)]
pub struct LoanTransfer {
    /// The administration fee charged for issuing the transferred loan.
    pub administration_fee: i64,
}

/// An interest change on a loan.
#[derive(Clone, Copy, Debug)]
pub struct LoanInterestChange {
    /// The new nominal interest on the loan, effective from its date.
    pub nominal_interest: i64,
}

/// A refinancing action.
#[derive(Clone, Copy, Debug)]
pub struct LoanRefinance {
    /// The total to increase the loan by.
    pub loan_increase: i64,
    /// The administration fee added to the total sum of the loan.
    pub administration_fee: i64,
}

/// A recurring interval selection within a year.
#[derive(Clone, Copy, Debug)]
pub enum RecurringInterval {
    /// Every week.
    Weekly,
    /// Every two weeks.
    Biweekly,
    /// Every month.
    Monthly,
    /// Every two months, six times a year.
    Bimonthly,
    /// Every three months, four times a year.
    Quarerly,
    /// Every four months, three times a year.
    Triannually,
    /// Every six months, two times a year.
    Biannually,
    /// Every year.
    Anually,
}

/// A schedule of extra payments on the loan.
#[derive(Clone, Copy, Debug)]
pub struct LoanRecurringExtraInstallments {
    /// The amount per extra payment, in micro-units.
    pub amount: i64,
    /// The number of extra payment events; at least 1. With a count of 1 the
    /// recurring interval has no effect.
    pub count: u32,
    /// The interval between any additional extra payments beyond the first.
    pub recurring_interval: RecurringInterval,
}

/// A single extra installment.
#[derive(Clone, Copy, Debug)]
pub struct LoanExtraInstallment {
    /// The amount of the extra payment, in micro-units.
    pub amount: i64,
}

/// A freeze of the repayment installments: only interest installments are due
/// while it lasts.
#[derive(Clone, Copy, Debug)]
pub struct LoanRepaymentFreeze {
    /// The number of repayment installments to freeze; at least 1.
    pub count: u32,
}

} // verus!
