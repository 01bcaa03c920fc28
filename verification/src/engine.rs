//! The day-by-day state machine of the simulation.
//!
//! [`CurrentCalculationState`] is the mutable working set carried across
//! days; [`DayActions`] is the bundle of operations scheduled for one
//! calendar date; [`process_day_action`] consumes one day's bundle and
//! produces the daily report, the updated state and the termination
//! decision. The function's behaviour is pinned down exactly by
//! [`spec_day_step`].

use vstd::prelude::*;

use crate::dates::Date;
use crate::events::MonthlyDueDate;
use crate::events::TermsPerYear;
use crate::money::AMOUNT_LIMIT;
use crate::money::DAILY_INTEREST_DIV;
use crate::money::EFF_BOUND;
use crate::money::PAYMENT_BOUND;
use crate::money::PRINCIPAL_LIMIT;
use crate::money::annuity_term_payment;
use crate::money::effective_interest;
use crate::money::lemma_mul_magnitude;
use crate::money::lemma_tdiv_magnitude;
use crate::money::mul_div;
use crate::money::spec_annuity_payment;
use crate::money::spec_effective_interest;
use crate::money::tdiv;
use crate::reports::Daily;
use crate::reports::DailyV;
use crate::reports::NotableEvents;

verus! {

/// How accrued interest is compounded into the principal.
#[derive(Clone, Copy, Debug)]
pub enum CompoundingStrategy {
    /// Unposted interest is posted every day.
    Daily,
    /// Unposted interest is posted on each installment date.
    OnInstallment,
    /// Unposted interest is posted on the last day of each month.
    EndOfMonth,
    /// Unposted interest is posted on the last day of each year.
    EndOfYear,
}

/// The kind of installment due on a day.
#[derive(Clone, Copy, PartialEq, Eq, Structural, Debug)]
pub enum InstallmentType {
    /// Only the interest accrued since the last installment is paid.
    InterestOnly,
    /// A full repayment installment.
    Repayment,
}

/// The operations that can occur on a single day.
/// Multiple actions can be specified.
#[derive(Debug)]
pub struct DayActions {
    /// A disbursement: the amount paid out and the administration fee, both
    /// added to the outstanding loan.
    pub initialization: Option<(i64, i64)>,
    /// Whether interest on the outstanding loan accumulates into the
    /// non-posted position on this day.
    pub interest_accumulating: bool,
    /// Whether the accumulated, non-posted interest is compounded into the
    /// principal loan on this day.
    pub interest_compounding: bool,
    /// The installment action for this day, if any.
    pub installment: Option<InstallmentType>,
    /// Additional repayments on the principal loan.
    pub extra_installments: Vec<i64>,
}

/// The mathematical value of a [`DayActions`] bundle.
pub struct DayActionsV {
    pub initialization: Option<(i64, i64)>,
    pub interest_accumulating: bool,
    pub interest_compounding: bool,
    pub installment: Option<InstallmentType>,
    pub extra_installments: Seq<i64>,
}

impl View for DayActions {
    type V = DayActionsV;

    open spec fn view(&self) -> DayActionsV {
        DayActionsV {
            initialization: self.initialization,
            interest_accumulating: self.interest_accumulating,
            interest_compounding: self.interest_compounding,
            installment: self.installment,
            extra_installments: self.extra_installments@,
        }
    }
}

/// Most extra installments one day can carry before the capacity guard
/// stops the computation.
pub const EXTRA_DAY_CAP: usize = 1_000_000;

/// This structure holds the current state of a calculation.
#[derive(Clone, Copy, Debug)]
pub struct CurrentCalculationState {
    /// How accrued interest is posted to the principal.
    pub interest_compounding_strategy: CompoundingStrategy,
    /// Total number of terms planned to repay the full loan, each scheduled
    /// installment containing a repayment portion.
    pub planned_repayment_terms: u32,
    /// Total number of completed repayment installments.
    pub completed_repayment_terms: u32,
    /// The principal loan sum disbursed last, including fees; the basis of
    /// the term payment.
    pub original_outstanding_loan: i128,
    /// Non-posted interest accumulated.
    pub accrued_interest: i128,
    /// Non-posted interest accumulated since the last installment.
    pub accrued_interest_since_last_installment: i128,
    /// The currently valid nominal interest for the outstanding loan, in
    /// micro-percent.
    pub current_nominal_interest: i128,
    /// The current principal loan sum to be repaid, in micro-units.
    pub current_outstanding_loan: i128,
    /// The fee applied to each scheduled repayment installment.
    pub current_installment_fee: i128,
    /// Configured number of terms per year for this loan.
    pub current_terms_per_year: TermsPerYear,
    /// The day-of-month convention installments fall on.
    pub current_monthly_due_day: MonthlyDueDate,
    /// The computed date of the next installment, regardless of type.
    pub computed_installment_date: Date,
    /// Computed effective interest, in micro-percent.
    pub computed_effective_interest: i128,
    /// The computed term payment, in micro-units.
    pub computed_term_payment: i128,
}

/// The amount fields of the state are within the ranges the day-step
/// arithmetic is verified for.
pub open spec fn state_bounded(s: CurrentCalculationState) -> bool {
    &&& -AMOUNT_LIMIT <= s.original_outstanding_loan <= AMOUNT_LIMIT
    &&& -AMOUNT_LIMIT <= s.accrued_interest <= AMOUNT_LIMIT
    &&& -AMOUNT_LIMIT <= s.accrued_interest_since_last_installment <= AMOUNT_LIMIT
    &&& -AMOUNT_LIMIT <= s.current_nominal_interest <= AMOUNT_LIMIT
    &&& -AMOUNT_LIMIT <= s.current_outstanding_loan <= AMOUNT_LIMIT
    &&& -AMOUNT_LIMIT <= s.current_installment_fee <= AMOUNT_LIMIT
    &&& -EFF_BOUND <= s.computed_effective_interest <= EFF_BOUND
    &&& -PAYMENT_BOUND <= s.computed_term_payment <= PAYMENT_BOUND
}

/// Runtime check of [`state_bounded`], the per-day capacity guard.
pub(crate) fn state_bounded_exec(s: &CurrentCalculationState) -> (r: bool)
    ensures
        r == state_bounded(*s),
{
    -AMOUNT_LIMIT <= s.original_outstanding_loan && s.original_outstanding_loan <= AMOUNT_LIMIT
        && -AMOUNT_LIMIT <= s.accrued_interest && s.accrued_interest <= AMOUNT_LIMIT
        && -AMOUNT_LIMIT <= s.accrued_interest_since_last_installment
        && s.accrued_interest_since_last_installment <= AMOUNT_LIMIT && -AMOUNT_LIMIT
        <= s.current_nominal_interest && s.current_nominal_interest <= AMOUNT_LIMIT
        && -AMOUNT_LIMIT <= s.current_outstanding_loan && s.current_outstanding_loan
        <= AMOUNT_LIMIT && -AMOUNT_LIMIT <= s.current_installment_fee
        && s.current_installment_fee <= AMOUNT_LIMIT && -EFF_BOUND
        <= s.computed_effective_interest && s.computed_effective_interest <= EFF_BOUND
        && -PAYMENT_BOUND <= s.computed_term_payment && s.computed_term_payment <= PAYMENT_BOUND
}

/// The sum of a day's extra installments.
pub open spec fn sum_i64(s: Seq<i64>) -> int
    decreases s.len(),
{
    if s.len() == 0 {
        0
    } else {
        sum_i64(s.drop_last()) + s.last()
    }
}

/// The sum of a day's extra installments is bounded by their count.
pub proof fn lemma_sum_i64_bound(s: Seq<i64>)
    ensures
        -(s.len() * 0x8000_0000_0000_0000) <= sum_i64(s) <= s.len() * 0x8000_0000_0000_0000,
    decreases s.len(),
{
    if s.len() > 0 {
        lemma_sum_i64_bound(s.drop_last());
    }
}

/// The notable-event rows of a day's extra installments, in order.
pub open spec fn extras_notables(s: Seq<i64>) -> Seq<NotableEvents>
    decreases s.len(),
{
    if s.len() == 0 {
        Seq::empty()
    } else {
        extras_notables(s.drop_last()).push(NotableEvents::ExtraInstallment(s.last() as int as i128))
    }
}

/// The notable-event row a disbursement contributes, if any.
pub open spec fn spec_init_notables(a: DayActionsV, disb_amount: int) -> Seq<NotableEvents> {
    if a.initialization is Some {
        seq![NotableEvents::Initialization(disb_amount as i128)]
    } else {
        Seq::empty()
    }
}

/// The result of one day of the state machine: the daily report, the
/// updated state and whether the simulation is finished.
pub struct DayStepV {
    pub daily: DailyV,
    pub state: CurrentCalculationState,
    pub finished: bool,
}

/// One day of the state machine, as a mathematical function. `None` marks a
/// computation stopped by a capacity guard: an over-sized rate or payment in
/// the annuity formulas, or a day with more extra installments than
/// [`EXTRA_DAY_CAP`].
///
/// The transition rules, applied in this order: disbursement, interest
/// accrual, extra payments, interest compounding, installment.
pub open spec fn spec_day_step(s: CurrentCalculationState, date: Date, a: DayActionsV) -> Option<
    DayStepV,
> {
    // 1. Disbursement: the amount and fee join the outstanding loan, which
    //    becomes the new basis for the effective rate and term payment.
    let disb_amount: int = match a.initialization {
        Option::Some((amount, _)) => amount as int,
        Option::None => 0,
    };
    let disb_fee: int = match a.initialization {
        Option::Some((_, fee)) => fee as int,
        Option::None => 0,
    };
    let out1 = s.current_outstanding_loan + disb_amount + disb_fee;
    let orig1 = if a.initialization is Some {
        out1
    } else {
        s.original_outstanding_loan as int
    };
    let k = s.current_terms_per_year.spec_terms();
    let eff1 = if a.initialization is Some {
        spec_effective_interest(s.current_nominal_interest as int, k)
    } else {
        Option::Some(s.computed_effective_interest as int)
    };
    match eff1 {
        Option::None => Option::None,
        Option::Some(eff) => {
            let payment1 = if a.initialization is Some {
                spec_annuity_payment(
                    orig1,
                    eff,
                    k,
                    s.planned_repayment_terms - s.completed_repayment_terms,
                )
            } else {
                Option::Some(s.computed_term_payment as int)
            };
            match payment1 {
                Option::None => Option::None,
                Option::Some(term_payment) => {
                    // 2. Interest accrual by daily increment on the
                    //    outstanding loan.
                    let dai = if a.interest_accumulating {
                        tdiv(out1 * s.current_nominal_interest, DAILY_INTEREST_DIV as int)
                    } else {
                        0
                    };
                    let accrued1 = s.accrued_interest + dai;
                    let since1 = s.accrued_interest_since_last_installment + dai;
                    // 3. Extra installments reduce the outstanding loan.
                    if a.extra_installments.len() > EXTRA_DAY_CAP {
                        Option::None
                    } else {
                        let extra_total = sum_i64(a.extra_installments);
                        let out2 = out1 - extra_total;
                        // 4. Compounding moves the whole non-posted position
                        //    into the principal.
                        let comp1 = if a.interest_compounding {
                            accrued1
                        } else {
                            0
                        };
                        let accrued2 = if a.interest_compounding {
                            0
                        } else {
                            accrued1
                        };
                        let out3 = out2 + comp1;
                        // 5. Installment.
                        spec_day_step_installment(
                            s,
                            date,
                            a,
                            DayMid {
                                orig: orig1,
                                eff,
                                term_payment,
                                dai,
                                accrued: accrued2,
                                since: since1,
                                out: out3,
                                comp: comp1,
                                extra_total,
                                disb_amount,
                                disb_fee,
                            },
                        )
                    }
                },
            }
        },
    }
}

/// The intermediate values of a day step, after disbursement, accrual,
/// extras and compounding but before the installment.
pub struct DayMid {
    pub orig: int,
    pub eff: int,
    pub term_payment: int,
    pub dai: int,
    pub accrued: int,
    pub since: int,
    pub out: int,
    pub comp: int,
    pub extra_total: int,
    pub disb_amount: int,
    pub disb_fee: int,
}

/// The installment stage of a day step, and the assembly of the daily
/// report.
pub open spec fn spec_day_step_installment(
    s: CurrentCalculationState,
    date: Date,
    a: DayActionsV,
    m: DayMid,
) -> Option<DayStepV> {
    let notables0 = spec_init_notables(a, m.disb_amount) + extras_notables(a.extra_installments);
    match a.installment {
        Option::Some(InstallmentType::Repayment) => {
            let fee = s.current_installment_fee as int;
            let total = m.out + fee + m.accrued;
            let last_payment = m.term_payment > total;
            let payment = if last_payment {
                total
            } else {
                m.term_payment + fee
            };
            let interest_installment = m.since;
            let out4 = m.out + fee;
            // On a final installment any interest not yet posted is folded
            // into the compounded figure and the principal.
            let fold_rest = payment == total && m.accrued > 0;
            let comp2 = if fold_rest {
                m.comp + m.accrued
            } else {
                m.comp
            };
            let out5 = if fold_rest {
                out4 + m.accrued
            } else {
                out4
            };
            let accrued3 = if fold_rest {
                0
            } else {
                m.accrued
            };
            let repayment_installment = payment - interest_installment;
            let out6 = out5 - payment;
            let finished = last_payment || out6 < 0;
            Option::Some(
                (DayStepV {
                    daily: DailyV {
                        date,
                        accrued_interest: m.dai,
                        compounded_interest: comp2,
                        disbursed: m.disb_amount,
                        fee: m.disb_fee + fee,
                        repayed: m.extra_total + payment,
                        repayment_installment,
                        interest_installment,
                        extra_installment: m.extra_total,
                        notable_events: notables0.push(
                            NotableEvents::RepaymentInstallment(payment as i128),
                        ),
                    },
                    state: CurrentCalculationState {
                        original_outstanding_loan: m.orig as i128,
                        accrued_interest: accrued3 as i128,
                        accrued_interest_since_last_installment: 0,
                        current_outstanding_loan: out6 as i128,
                        completed_repayment_terms: (s.completed_repayment_terms + 1) as u32,
                        computed_effective_interest: m.eff as i128,
                        computed_term_payment: m.term_payment as i128,
                        ..s
                    },
                    finished,
                }),
            )
        },
        Option::Some(InstallmentType::InterestOnly) => {
            let interest_installment = m.since + m.dai;
            Option::Some(
                (DayStepV {
                    daily: DailyV {
                        date,
                        accrued_interest: m.dai,
                        compounded_interest: m.comp,
                        disbursed: m.disb_amount,
                        fee: m.disb_fee,
                        repayed: m.extra_total + interest_installment,
                        repayment_installment: 0,
                        interest_installment,
                        extra_installment: m.extra_total,
                        notable_events: notables0.push(
                            NotableEvents::InterestOnlyInstallment(interest_installment as i128),
                        ),
                    },
                    state: CurrentCalculationState {
                        original_outstanding_loan: m.orig as i128,
                        accrued_interest: m.accrued as i128,
                        accrued_interest_since_last_installment: 0,
                        current_outstanding_loan: m.out as i128,
                        computed_effective_interest: m.eff as i128,
                        computed_term_payment: m.term_payment as i128,
                        ..s
                    },
                    finished: false,
                }),
            )
        },
        Option::None => Option::Some(
            (DayStepV {
                daily: DailyV {
                    date,
                    accrued_interest: m.dai,
                    compounded_interest: m.comp,
                    disbursed: m.disb_amount,
                    fee: m.disb_fee,
                    repayed: m.extra_total,
                    repayment_installment: 0,
                    interest_installment: 0,
                    extra_installment: m.extra_total,
                    notable_events: notables0,
                },
                state: CurrentCalculationState {
                    original_outstanding_loan: m.orig as i128,
                    accrued_interest: m.accrued as i128,
                    accrued_interest_since_last_installment: m.since as i128,
                    current_outstanding_loan: m.out as i128,
                    computed_effective_interest: m.eff as i128,
                    computed_term_payment: m.term_payment as i128,
                    ..s
                },
                finished: false,
            }),
        ),
    }
}

/// Process a single day of actions against the calculation state: the
/// executable form of [`spec_day_step`]. `None` marks a capacity stop.
#[verifier::rlimit(100)]
pub(crate) fn process_day_action(s: CurrentCalculationState, date: Date, actions: DayActions) -> (r:
    Option<(Daily, CurrentCalculationState, bool)>)
    requires
        state_bounded(s),
        0 <= s.current_nominal_interest,
        s.completed_repayment_terms <= s.planned_repayment_terms,
        actions@.installment == Some(InstallmentType::Repayment)
            ==> s.completed_repayment_terms < s.planned_repayment_terms,
    ensures
        match r {
            Option::Some((daily, s2, finished)) => spec_day_step(s, date, actions@) == Some(
                (DayStepV { daily: daily@, state: s2, finished }),
            ),
            Option::None => spec_day_step(s, date, actions@) is None,
        },
{
    let mut notable: Vec<NotableEvents> = Vec::new();

    // 1. Disbursement.
    let disb_amount: i128 = match actions.initialization {
        Option::Some((amount, _)) => amount as i128,
        Option::None => 0,
    };
    let disb_fee: i128 = match actions.initialization {
        Option::Some((_, fee)) => fee as i128,
        Option::None => 0,
    };
    let out1: i128 = s.current_outstanding_loan + disb_amount + disb_fee;
    let orig1: i128 = if actions.initialization.is_some() {
        out1
    } else {
        s.original_outstanding_loan
    };
    let k: u32 = s.current_terms_per_year.to_u32();
    let eff: i128 = if actions.initialization.is_some() {
        match effective_interest(s.current_nominal_interest, k) {
            Option::Some(e) => e,
            Option::None => {
                return None;
            },
        }
    } else {
        s.computed_effective_interest
    };
    let term_payment: i128 = if actions.initialization.is_some() {
        match annuity_term_payment(
            orig1,
            eff,
            k,
            s.planned_repayment_terms - s.completed_repayment_terms,
        ) {
            Option::Some(p) => p,
            Option::None => {
                return None;
            },
        }
    } else {
        s.computed_term_payment
    };
    if actions.initialization.is_some() {
        notable.push(NotableEvents::Initialization(disb_amount));
    }

    // 2. Accumulate interest on the outstanding principal loan, by daily
    //    increment.
    let dai: i128 = if actions.interest_accumulating {
        proof {
            lemma_mul_magnitude(
                out1 as int,
                s.current_nominal_interest as int,
                PRINCIPAL_LIMIT as int,
                AMOUNT_LIMIT as int,
            );
            lemma_tdiv_magnitude(
                out1 * s.current_nominal_interest,
                DAILY_INTEREST_DIV as int,
                PRINCIPAL_LIMIT * AMOUNT_LIMIT,
            );
        }
        mul_div(out1, s.current_nominal_interest, DAILY_INTEREST_DIV)
    } else {
        0
    };
    let accrued1: i128 = s.accrued_interest + dai;
    let since1: i128 = s.accrued_interest_since_last_installment + dai;

    // 3. Extra installments scheduled on this day.
    if actions.extra_installments.len() > EXTRA_DAY_CAP {
        return None;
    }
    let ghost extras: Seq<i64> = actions.extra_installments@;
    let mut extra_total: i128 = 0;
    let mut out2: i128 = out1;
    let mut idx: usize = 0;
    proof {
        lemma_sum_i64_bound(extras);
        assert(notable@ =~= spec_init_notables(actions@, disb_amount as int) + extras_notables(
            extras.take(0),
        ));
    }
    while idx < actions.extra_installments.len()
        invariant
            0 <= idx <= extras.len(),
            extra_total == sum_i64(extras.take(idx as int)),
            out2 == out1 - extra_total,
            notable@ == spec_init_notables(actions@, disb_amount as int) + extras_notables(
                extras.take(idx as int),
            ),
            -(extras.len() * 0x8000_0000_0000_0000) <= extra_total <= extras.len()
                * 0x8000_0000_0000_0000,
        decreases extras.len() - idx,
    {
        let e: i64 = actions.extra_installments[idx];
        proof {
            assert(extras.take(idx + 1).drop_last() =~= extras.take(idx as int));
            lemma_sum_i64_bound(extras.take(idx + 1));
        }
        extra_total = extra_total + e as i128;
        out2 = out2 - e as i128;
        notable.push(NotableEvents::ExtraInstallment(e as i128));
        proof {
            assert(notable@ =~= spec_init_notables(actions@, disb_amount as int) + extras_notables(
                extras.take(idx + 1),
            ));
        }
        idx = idx + 1;
    }
    proof {
        assert(extras.take(extras.len() as int) =~= extras);
    }

    // 4. Post the accrued interest to the loan when compounding is due.
    let comp1: i128 = if actions.interest_compounding {
        accrued1
    } else {
        0
    };
    let accrued2: i128 = if actions.interest_compounding {
        0
    } else {
        accrued1
    };
    let out3: i128 = out2 + comp1;

    // 5. Installment.
    match actions.installment {
        Option::Some(InstallmentType::Repayment) => {
            let fee: i128 = s.current_installment_fee;
            let total: i128 = out3 + fee + accrued2;
            let last_payment: bool = term_payment > total;
            let payment: i128 = if last_payment {
                total
            } else {
                term_payment + fee
            };
            let interest_installment: i128 = since1;
            let out4: i128 = out3 + fee;
            let fold_rest: bool = payment == total && accrued2 > 0;
            let comp2: i128 = if fold_rest {
                comp1 + accrued2
            } else {
                comp1
            };
            let out5: i128 = if fold_rest {
                out4 + accrued2
            } else {
                out4
            };
            let accrued3: i128 = if fold_rest {
                0
            } else {
                accrued2
            };
            let repayment_installment: i128 = payment - interest_installment;
            let out6: i128 = out5 - payment;
            let finished: bool = last_payment || out6 < 0;
            notable.push(NotableEvents::RepaymentInstallment(payment));
            let daily = Daily {
                date,
                accrued_interest: dai,
                compounded_interest: comp2,
                disbursed: disb_amount,
                fee: disb_fee + fee,
                repayed: extra_total + payment,
                repayment_installment,
                interest_installment,
                extra_installment: extra_total,
                notable_events: notable,
            };
            let s2 = CurrentCalculationState {
                original_outstanding_loan: orig1,
                accrued_interest: accrued3,
                accrued_interest_since_last_installment: 0,
                current_outstanding_loan: out6,
                completed_repayment_terms: s.completed_repayment_terms + 1,
                computed_effective_interest: eff,
                computed_term_payment: term_payment,
                ..s
            };
            Some((daily, s2, finished))
        },
        Option::Some(InstallmentType::InterestOnly) => {
            let interest_installment: i128 = since1 + dai;
            notable.push(NotableEvents::InterestOnlyInstallment(interest_installment));
            let daily = Daily {
                date,
                accrued_interest: dai,
                compounded_interest: comp1,
                disbursed: disb_amount,
                fee: disb_fee,
                repayed: extra_total + interest_installment,
                repayment_installment: 0,
                interest_installment,
                extra_installment: extra_total,
                notable_events: notable,
            };
            let s2 = CurrentCalculationState {
                original_outstanding_loan: orig1,
                accrued_interest: accrued2,
                accrued_interest_since_last_installment: 0,
                current_outstanding_loan: out3,
                computed_effective_interest: eff,
                computed_term_payment: term_payment,
                ..s
            };
            Some((daily, s2, false))
        },
        Option::None => {
            let daily = Daily {
                date,
                accrued_interest: dai,
                compounded_interest: comp1,
                disbursed: disb_amount,
                fee: disb_fee,
                repayed: extra_total,
                repayment_installment: 0,
                interest_installment: 0,
                extra_installment: extra_total,
                notable_events: notable,
            };
            let s2 = CurrentCalculationState {
                original_outstanding_loan: orig1,
                accrued_interest: accrued2,
                accrued_interest_since_last_installment: since1,
                current_outstanding_loan: out3,
                computed_effective_interest: eff,
                computed_term_payment: term_payment,
                ..s
            };
            Some((daily, s2, false))
        },
    }
}

} // verus!
