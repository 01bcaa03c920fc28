//! Models related to the reports of calculations.
//!
//! A [`Daily`] is one row of the simulated ledger; a [`TotalResult`] is the
//! aggregate over all rows. Amounts are micro-units of currency.

use vstd::prelude::*;

use crate::dates::Date;
use crate::dates::valid_ymd;

verus! {

/// Notable events that can occur on a simulated day, each carrying the
/// amount involved.
#[derive(Clone, Copy, Debug)]
pub enum NotableEvents {
    /// The loan was disbursed, with the disbursed amount.
    Initialization(i128),
    /// A scheduled repayment installment was paid.
    RepaymentInstallment(i128),
    /// An interest-only installment was paid.
    InterestOnlyInstallment(i128),
    /// An extra installment was paid.
    ExtraInstallment(i128),
}

/// The daily result produced by a calculation.
/// All fields represent the state on the date of the status report.
#[derive(Debug)]
pub struct Daily {
    /// The date of this daily status report.
    pub date: Date,
    /// The amount of interest accrued on this date.
    pub accrued_interest: i128,
    /// Any interest compounded into the principal loan on this date.
    pub compounded_interest: i128,
    /// The amount disbursed on the loan.
    pub disbursed: i128,
    /// The total fees charged on this date.
    pub fee: i128,
    /// Everything repaid to the loan on this date.
    pub repayed: i128,
    /// The portion of `repayed` that is an ordinary repayment portion.
    pub repayment_installment: i128,
    /// The portion of `repayed` that is the accrued interest portion.
    pub interest_installment: i128,
    /// The portion of `repayed` that is due to extraordinary installments.
    pub extra_installment: i128,
    /// Notable events that occurred on this date.
    pub notable_events: Vec<NotableEvents>,
}

/// The mathematical value of a [`Daily`]: the same fields with the event
/// list as a sequence.
pub struct DailyV {
    pub date: Date,
    pub accrued_interest: int,
    pub compounded_interest: int,
    pub disbursed: int,
    pub fee: int,
    pub repayed: int,
    pub repayment_installment: int,
    pub interest_installment: int,
    pub extra_installment: int,
    pub notable_events: Seq<NotableEvents>,
}

impl View for Daily {
    type V = DailyV;

    open spec fn view(&self) -> DailyV {
        DailyV {
            date: self.date,
            accrued_interest: self.accrued_interest as int,
            compounded_interest: self.compounded_interest as int,
            disbursed: self.disbursed as int,
            fee: self.fee as int,
            repayed: self.repayed as int,
            repayment_installment: self.repayment_installment as int,
            interest_installment: self.interest_installment as int,
            extra_installment: self.extra_installment as int,
            notable_events: self.notable_events@,
        }
    }
}

/// The values of a sequence of daily reports.
pub open spec fn daily_views(s: Seq<Daily>) -> Seq<DailyV> {
    s.map(|i: int, d: Daily| d@)
}

/// This report includes the total computation of an installment loan.
/// Amount fields are micro-units of currency.
#[derive(Clone, Copy, PartialEq, Eq, Structural, Debug)]
pub struct TotalResult {
    /// The total cost of this loan, including the principal loan sum.
    pub total_cost: i64,
    /// The total principal loan sum, aggregated over any additional
    /// refinancing.
    pub total_loan: i64,
    /// The total of the disbursed loan repaid in nominal repayments
    /// according to the valid repayment plan at any one time.
    pub total_repayment_installment: i64,
    /// The total of the disbursed loan repaid in extra installments.
    pub total_extra_installment: i64,
    /// The total interest paid on the loan over its duration.
    pub total_interest: i64,
    /// The total fees associated with the loan repayment plan.
    pub total_fee: i64,
    /// The date this loan was disbursed.
    pub disbursement_date: Date,
    /// First date of a regular, scheduled repayment installment.
    pub first_installment_date: Date,
    /// The date this loan was completely paid back.
    pub end_date: Date,
    /// The number of planned terms as of the initial loan event.
    pub planned_terms: i32,
    /// The number of completed repayment terms.
    pub completed_terms: i32,
}

/// The six summed columns of a daily report fit the totals' range.
pub open spec fn daily_fits(d: DailyV) -> bool {
    &&& i64::MIN <= d.repayed <= i64::MAX
    &&& i64::MIN <= d.disbursed <= i64::MAX
    &&& i64::MIN <= d.repayment_installment <= i64::MAX
    &&& i64::MIN <= d.extra_installment <= i64::MAX
    &&& i64::MIN <= d.compounded_interest <= i64::MAX
    &&& i64::MIN <= d.fee <= i64::MAX
}

/// The six running totals fit the totals' range.
pub open spec fn sums_fit(t: (int, int, int, int, int, int)) -> bool {
    &&& i64::MIN <= t.0 <= i64::MAX
    &&& i64::MIN <= t.1 <= i64::MAX
    &&& i64::MIN <= t.2 <= i64::MAX
    &&& i64::MIN <= t.3 <= i64::MAX
    &&& i64::MIN <= t.4 <= i64::MAX
    &&& i64::MIN <= t.5 <= i64::MAX
}

/// The sums of the six aggregated columns over a daily-report sequence:
/// repaid, disbursed, repayment portion, extra portion, compounded interest
/// and fees. `None` when a column or a running total leaves the totals'
/// range.
pub open spec fn spec_sums(ds: Seq<DailyV>) -> Option<(int, int, int, int, int, int)>
    decreases ds.len(),
{
    if ds.len() == 0 {
        Option::Some((0, 0, 0, 0, 0, 0))
    } else {
        match spec_sums(ds.drop_last()) {
            Option::None => Option::None,
            Option::Some(t) => {
                let d = ds.last();
                if !daily_fits(d) {
                    Option::None
                } else {
                    let t2 = (
                        t.0 + d.repayed,
                        t.1 + d.disbursed,
                        t.2 + d.repayment_installment,
                        t.3 + d.extra_installment,
                        t.4 + d.compounded_interest,
                        t.5 + d.fee,
                    );
                    if !sums_fit(t2) {
                        Option::None
                    } else {
                        Option::Some(t2)
                    }
                }
            },
        }
    }
}

/// The date of the first report with a positive repayment installment.
pub open spec fn spec_first_installment_date(ds: Seq<DailyV>) -> Option<Date>
    decreases ds.len(),
{
    if ds.len() == 0 {
        Option::None
    } else if ds[0].repayment_installment > 0 {
        Option::Some(ds[0].date)
    } else {
        spec_first_installment_date(ds.drop_first())
    }
}

/// Appending one report leaves an already-found first installment date, and
/// can only supply one where none was found.
proof fn lemma_first_installment_push(ds: Seq<DailyV>, d: DailyV)
    ensures
        spec_first_installment_date(ds.push(d)) == (if spec_first_installment_date(ds) is Some {
            spec_first_installment_date(ds)
        } else if d.repayment_installment > 0 {
            Option::Some(d.date)
        } else {
            Option::<Date>::None
        }),
    decreases ds.len(),
{
    if ds.len() == 0 {
        assert(ds.push(d)[0] == d);
        assert(ds.push(d).drop_first() =~= Seq::<DailyV>::empty());
    } else {
        assert(ds.push(d)[0] == ds[0]);
        assert(ds.push(d).drop_first() =~= ds.drop_first().push(d));
        lemma_first_installment_push(ds.drop_first(), d);
    }
}

/// A failed fold of a prefix fails the fold of the whole sequence.
proof fn lemma_sums_none(ds: Seq<DailyV>, i: int)
    requires
        0 <= i <= ds.len(),
        spec_sums(ds.take(i)) is None,
    ensures
        spec_sums(ds) is None,
    decreases ds.len() - i,
{
    if i == ds.len() {
        assert(ds.take(i) =~= ds);
    } else {
        assert(ds.take(i + 1).drop_last() =~= ds.take(i));
        lemma_sums_none(ds, i + 1);
    }
}

/// The epoch sentinel used when no repayment installment ever occurred.
pub open spec fn spec_epoch() -> Date {
    Date::date_from(1970, 1, 1)
}

/// The total report aggregated from a daily-report sequence, with the term
/// counters taken from the final state. `None` when a total leaves the
/// totals' range.
pub open spec fn spec_aggregate(ds: Seq<DailyV>, planned: u32, completed: u32) -> Option<
    TotalResult,
>
    recommends
        ds.len() >= 1,
{
    match spec_sums(ds) {
        Option::None => Option::None,
        Option::Some(t) => Option::Some(
            (TotalResult {
                total_cost: t.0 as i64,
                total_loan: t.1 as i64,
                total_repayment_installment: t.2 as i64,
                total_extra_installment: t.3 as i64,
                total_interest: t.4 as i64,
                total_fee: t.5 as i64,
                disbursement_date: ds[0].date,
                first_installment_date: match spec_first_installment_date(ds) {
                    Option::Some(d) => d,
                    Option::None => spec_epoch(),
                },
                end_date: ds.last().date,
                planned_terms: planned as i32,
                completed_terms: completed as i32,
            }),
        ),
    }
}

/// Fold the daily reports into the total report: the executable form of
/// [`spec_aggregate`]. `None` when a total leaves the totals' range.
pub fn aggregate_reports(dailys: &Vec<Daily>, planned: u32, completed: u32) -> (r: Option<
    TotalResult,
>)
    requires
        dailys@.len() >= 1,
    ensures
        r == spec_aggregate(daily_views(dailys@), planned, completed),
{
    let ghost ds = daily_views(dailys@);
    let mut sum_cost: i128 = 0;
    let mut sum_loan: i128 = 0;
    let mut sum_rep: i128 = 0;
    let mut sum_extra: i128 = 0;
    let mut sum_interest: i128 = 0;
    let mut sum_fee: i128 = 0;
    let mut first_inst: Option<Date> = None;
    let mut i: usize = 0;
    proof {
        assert(ds.take(0) =~= Seq::<DailyV>::empty());
    }
    while i < dailys.len()
        invariant
            0 <= i <= dailys@.len(),
            spec_sums(ds.take(i as int)) == Some(
                (
                    sum_cost as int,
                    sum_loan as int,
                    sum_rep as int,
                    sum_extra as int,
                    sum_interest as int,
                    sum_fee as int,
                ),
            ),
            sums_fit(
                (
                    sum_cost as int,
                    sum_loan as int,
                    sum_rep as int,
                    sum_extra as int,
                    sum_interest as int,
                    sum_fee as int,
                ),
            ),
            first_inst == spec_first_installment_date(ds.take(i as int)),
        decreases dailys@.len() - i,
    {
        let d = &dailys[i];
        proof {
            assert(ds.take(i + 1).drop_last() =~= ds.take(i as int));
            assert(ds.take(i + 1).last() == ds[i as int]);
            lemma_first_installment_push(ds.take(i as int), ds[i as int]);
            assert(ds.take(i + 1) =~= ds.take(i as int).push(ds[i as int]));
        }
        if d.repayed < i64::MIN as i128 || d.repayed > i64::MAX as i128 || d.disbursed
            < i64::MIN as i128 || d.disbursed > i64::MAX as i128 || d.repayment_installment
            < i64::MIN as i128 || d.repayment_installment > i64::MAX as i128 || d.extra_installment
            < i64::MIN as i128 || d.extra_installment > i64::MAX as i128 || d.compounded_interest
            < i64::MIN as i128 || d.compounded_interest > i64::MAX as i128 || d.fee
            < i64::MIN as i128 || d.fee > i64::MAX as i128 {
            proof {
                lemma_sums_none(ds, i + 1);
            }
            return None;
        }
        let n_cost: i128 = sum_cost + d.repayed;
        let n_loan: i128 = sum_loan + d.disbursed;
        let n_rep: i128 = sum_rep + d.repayment_installment;
        let n_extra: i128 = sum_extra + d.extra_installment;
        let n_interest: i128 = sum_interest + d.compounded_interest;
        let n_fee: i128 = sum_fee + d.fee;
        if n_cost < i64::MIN as i128 || n_cost > i64::MAX as i128 || n_loan < i64::MIN as i128
            || n_loan > i64::MAX as i128 || n_rep < i64::MIN as i128 || n_rep > i64::MAX as i128
            || n_extra < i64::MIN as i128 || n_extra > i64::MAX as i128 || n_interest
            < i64::MIN as i128 || n_interest > i64::MAX as i128 || n_fee < i64::MIN as i128
            || n_fee > i64::MAX as i128 {
            proof {
                lemma_sums_none(ds, i + 1);
            }
            return None;
        }
        sum_cost = n_cost;
        sum_loan = n_loan;
        sum_rep = n_rep;
        sum_extra = n_extra;
        sum_interest = n_interest;
        sum_fee = n_fee;
        if first_inst.is_none() && d.repayment_installment > 0 {
            first_inst = Some(d.date);
        }
        i = i + 1;
    }
    proof {
        assert(ds.take(dailys@.len() as int) =~= ds);
    }
    let first_installment_date: Date = match first_inst {
        Some(d) => d,
        None => epoch_date(),
    };
    Some(
        TotalResult {
            total_cost: sum_cost as i64,
            total_loan: sum_loan as i64,
            total_repayment_installment: sum_rep as i64,
            total_extra_installment: sum_extra as i64,
            total_interest: sum_interest as i64,
            total_fee: sum_fee as i64,
            disbursement_date: dailys[0].date,
            first_installment_date,
            end_date: dailys[dailys.len() - 1].date,
            planned_terms: #[verifier::truncate] (planned as i32),
            completed_terms: #[verifier::truncate] (completed as i32),
        },
    )
}

/// The epoch sentinel date.
fn epoch_date() -> (r: Date)
    ensures
        r == spec_epoch(),
        r.y() == 1970 && r.m() == 1 && r.d() == 1,
{
    proof {
        assert(valid_ymd(1970, 1, 1));
    }
    Date::from_ymd(1970, 1, 1)
}

} // verus!
