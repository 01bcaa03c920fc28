//! The library-wide laws: properties of the simulation proved once, over
//! every input their statement admits.

use vstd::prelude::*;

use crate::calculator::RunOutcome;
use crate::calculator::spec_compute;
use crate::calculator::spec_merged_bundle;
use crate::calculator::spec_run;
use crate::calculator::spec_simulate;
use crate::dates::Date;
use crate::dates::date_le;
use crate::dates::date_lt;
use crate::dates::days_in_month;
use crate::dates::valid_ymd;
use crate::engine::CurrentCalculationState;
use crate::engine::DayActionsV;
use crate::engine::InstallmentType;
use crate::engine::spec_day_step;
use crate::engine::state_bounded;
use crate::engine::sum_i64;
use crate::events::LoanEvent;
use crate::money::AMOUNT_LIMIT;
use crate::money::DAILY_INTEREST_DIV;
use crate::money::tdiv;
use crate::projector::ProjParams;
use crate::projector::ScheduledDayV;
use crate::projector::count_rep;
use crate::projector::lemma_count_rep_nonneg;
use crate::projector::lemma_project_count;
use crate::projector::spec_proj_entry;
use crate::projector::spec_project;
use crate::reports::DailyV;
use crate::reports::TotalResult;
use crate::schedule::spec_installment_ymd;
use crate::schedule::spec_interval_date;

verus! {

/// Computing twice on the same timeline yields identical results: the
/// total report of `compute` is a function of the timeline value alone, so
/// an unmodified calculator answers every call with the same report.
pub proof fn lemma_compute_deterministic(
    t: Seq<(Date, Seq<LoanEvent>)>,
    r1: Result<TotalResult, crate::calculator::CalculationError>,
    r2: Result<TotalResult, crate::calculator::CalculationError>,
)
    requires
        r1 == spec_compute(t),
        r2 == spec_compute(t),
    ensures
        r1 == r2,
{
}

/// On a day with only interest accrual - no disbursement, no compounding,
/// no installment, no extra payments - the outstanding principal does not
/// change: accrued interest stays in the unposted position.
pub proof fn lemma_accrual_only_keeps_outstanding(
    s: CurrentCalculationState,
    date: Date,
    a: DayActionsV,
)
    requires
        state_bounded(s),
        a.initialization is None,
        a.installment is None,
        !a.interest_compounding,
        a.extra_installments.len() == 0,
        spec_day_step(s, date, a) is Some,
    ensures
        spec_day_step(s, date, a)->Some_0.state.current_outstanding_loan
            == s.current_outstanding_loan,
{
    assert(sum_i64(a.extra_installments) == 0);
}

/// On a day with extra installments and no other principal movement, the
/// outstanding principal decreases by exactly their sum; with a positive
/// sum the decrease is strict.
pub proof fn lemma_extra_payment_reduces_outstanding(
    s: CurrentCalculationState,
    date: Date,
    a: DayActionsV,
)
    requires
        state_bounded(s),
        a.initialization is None,
        a.installment is None,
        !a.interest_compounding,
        a.extra_installments.len() <= crate::engine::EXTRA_DAY_CAP,
        spec_day_step(s, date, a) is Some,
    ensures
        spec_day_step(s, date, a)->Some_0.state.current_outstanding_loan
            == s.current_outstanding_loan - sum_i64(a.extra_installments),
        spec_day_step(s, date, a)->Some_0.daily.extra_installment == sum_i64(
            a.extra_installments,
        ),
        sum_i64(a.extra_installments) > 0 ==> spec_day_step(s, date, a)
            ->Some_0.state.current_outstanding_loan < s.current_outstanding_loan,
{
    crate::engine::lemma_sum_i64_bound(a.extra_installments);
}

/// On a repayment day without disbursement or extra payments, the
/// outstanding principal moves by exactly the compounded interest minus the
/// term payment; a term payment above the compounded interest strictly
/// decreases it, and a term payment exceeding the whole remaining total
/// finishes the simulation.
pub proof fn lemma_repayment_day_outstanding(
    s: CurrentCalculationState,
    date: Date,
    a: DayActionsV,
)
    requires
        state_bounded(s),
        a.initialization is None,
        a.installment == Some(InstallmentType::Repayment),
        a.extra_installments.len() == 0,
        spec_day_step(s, date, a) is Some,
    ensures
        ({
            let st = spec_day_step(s, date, a)->Some_0;
            let dai = if a.interest_accumulating {
                tdiv(
                    s.current_outstanding_loan * s.current_nominal_interest,
                    DAILY_INTEREST_DIV as int,
                )
            } else {
                0
            };
            let comp = if a.interest_compounding {
                s.accrued_interest + dai
            } else {
                0
            };
            let accrued = if a.interest_compounding {
                0
            } else {
                s.accrued_interest + dai
            };
            let total = s.current_outstanding_loan + comp + s.current_installment_fee + accrued;
            let exact_hit = s.computed_term_payment + s.current_installment_fee == total
                && accrued > 0;
            &&& (s.computed_term_payment <= total && !exact_hit)
                ==> st.state.current_outstanding_loan == s.current_outstanding_loan + comp
                - s.computed_term_payment
            &&& (s.computed_term_payment <= total && !exact_hit && s.computed_term_payment > comp)
                ==> st.state.current_outstanding_loan < s.current_outstanding_loan
            &&& s.computed_term_payment > total ==> st.finished
        }),
{
    assert(sum_i64(a.extra_installments) == 0);
    crate::money::lemma_mul_magnitude(
        s.current_outstanding_loan as int,
        s.current_nominal_interest as int,
        AMOUNT_LIMIT as int,
        AMOUNT_LIMIT as int,
    );
    crate::money::lemma_tdiv_magnitude(
        s.current_outstanding_loan * s.current_nominal_interest,
        DAILY_INTEREST_DIV as int,
        AMOUNT_LIMIT * AMOUNT_LIMIT,
    );
}

/// Adding one extra payment to a day without an installment lowers that
/// day's resulting outstanding principal by exactly the added amount, and
/// raises the day's extra-installment and repaid figures by it.
pub proof fn lemma_one_more_extra_payment(
    s: CurrentCalculationState,
    date: Date,
    a: DayActionsV,
    amount: i64,
)
    requires
        state_bounded(s),
        a.installment is None,
        a.extra_installments.len() + 1 <= crate::engine::EXTRA_DAY_CAP,
        spec_day_step(s, date, a) is Some,
    ensures
        ({
            let a2 = DayActionsV {
                extra_installments: a.extra_installments.push(amount),
                ..a
            };
            &&& spec_day_step(s, date, a2) is Some
            &&& spec_day_step(s, date, a2)->Some_0.state.current_outstanding_loan
                == spec_day_step(s, date, a)->Some_0.state.current_outstanding_loan - amount
            &&& spec_day_step(s, date, a2)->Some_0.daily.extra_installment == spec_day_step(
                s,
                date,
                a,
            )->Some_0.daily.extra_installment + amount
            &&& spec_day_step(s, date, a2)->Some_0.daily.repayed == spec_day_step(s, date, a)
                ->Some_0.daily.repayed + amount
        }),
{
    let a2 = DayActionsV { extra_installments: a.extra_installments.push(amount), ..a };
    assert(a2.extra_installments.drop_last() =~= a.extra_installments);
    crate::engine::lemma_sum_i64_bound(a.extra_installments);
    crate::engine::lemma_sum_i64_bound(a2.extra_installments);
    let disb_amount: int = match a.initialization {
        Option::Some((am, _)) => am as int,
        Option::None => 0,
    };
    let disb_fee: int = match a.initialization {
        Option::Some((_, f)) => f as int,
        Option::None => 0,
    };
    let out1 = s.current_outstanding_loan + disb_amount + disb_fee;
    crate::money::lemma_mul_magnitude(
        out1,
        s.current_nominal_interest as int,
        crate::money::PRINCIPAL_LIMIT as int,
        AMOUNT_LIMIT as int,
    );
    crate::money::lemma_tdiv_magnitude(
        out1 * s.current_nominal_interest,
        DAILY_INTEREST_DIV as int,
        crate::money::PRINCIPAL_LIMIT * AMOUNT_LIMIT,
    );
}

/// The fields a day step writes that do not depend on the amounts: the
/// report's date and disbursed figure, the term counters, and the shape of
/// the finish signal.
proof fn lemma_day_step_basic(s: CurrentCalculationState, date: Date, a: DayActionsV)
    requires
        spec_day_step(s, date, a) is Some,
    ensures
        ({
            let st = spec_day_step(s, date, a)->Some_0;
            &&& st.daily.date == date
            &&& st.daily.disbursed == (match a.initialization {
                Option::Some((am, _)) => am as int,
                Option::None => 0,
            })
            &&& st.finished ==> a.installment == Some(InstallmentType::Repayment)
            &&& st.state.planned_repayment_terms == s.planned_repayment_terms
            &&& (a.installment == Some(InstallmentType::Repayment) && s.completed_repayment_terms
                < u32::MAX) ==> st.state.completed_repayment_terms
                == s.completed_repayment_terms + 1
            &&& a.installment != Some(InstallmentType::Repayment)
                ==> st.state.completed_repayment_terms == s.completed_repayment_terms
        }),
{
}

/// Unfolding the repayment count of a suffix by one entry.
proof fn lemma_count_rep_skip_unfold(q: Seq<ScheduledDayV>, i: int)
    requires
        0 <= i < q.len(),
    ensures
        count_rep(q.skip(i)) == (if q[i].actions.installment == Some(InstallmentType::Repayment) {
            1int
        } else {
            0
        }) + count_rep(q.skip(i + 1)),
{
    assert(q.skip(i)[0] == q[i]);
    assert(q.skip(i).drop_first() =~= q.skip(i + 1));
}

/// The disbursed column of a daily-report sequence.
spec fn sum_disbursed(ds: Seq<DailyV>) -> int
    decreases ds.len(),
{
    if ds.len() == 0 {
        0
    } else {
        ds[0].disbursed + sum_disbursed(ds.drop_first())
    }
}

/// Appending one report adds its disbursed figure to the column sum.
proof fn lemma_sum_disbursed_push(ds: Seq<DailyV>, d: DailyV)
    ensures
        sum_disbursed(ds.push(d)) == sum_disbursed(ds) + d.disbursed,
    decreases ds.len(),
{
    if ds.len() == 0 {
        assert(ds.push(d)[0] == d);
        assert(ds.push(d).drop_first() =~= Seq::<DailyV>::empty());
        assert(sum_disbursed(Seq::<DailyV>::empty()) == 0);
    } else {
        assert(ds.push(d)[0] == ds[0]);
        assert(ds.push(d).drop_first() =~= ds.drop_first().push(d));
        lemma_sum_disbursed_push(ds.drop_first(), d);
    }
}

/// A defined aggregate's loan column equals the plain disbursed sum.
proof fn lemma_sums_total_loan(ds: Seq<DailyV>)
    requires
        crate::reports::spec_sums(ds) is Some,
    ensures
        crate::reports::spec_sums(ds)->Some_0.1 == sum_disbursed(ds),
    decreases ds.len(),
{
    if ds.len() > 0 {
        lemma_sums_total_loan(ds.drop_last());
        assert(ds.drop_last().push(ds.last()) =~= ds);
        lemma_sum_disbursed_push(ds.drop_last(), ds.last());
    }
}

/// Every entry a projection schedules is an ordinary day: no disbursement.
proof fn lemma_project_no_init(
    p: ProjParams,
    date: Date,
    next_inst: Date,
    completed: u32,
    skip: u32,
    fuel: nat,
)
    requires
        spec_project(p, date, next_inst, completed, skip, fuel) is Some,
    ensures
        forall|k: int|
            0 <= k < spec_project(p, date, next_inst, completed, skip, fuel)->Some_0.len()
                ==> (#[trigger] spec_project(p, date, next_inst, completed, skip, fuel)->Some_0[k]).actions.initialization is None,
    decreases fuel,
{
    if completed != p.planned {
        let entry = spec_proj_entry(p, date, next_inst, skip);
        let skip2: u32 = if date == next_inst && skip > 0 {
            (skip - 1) as u32
        } else {
            skip
        };
        let completed2: u32 = if date == next_inst && skip == 0 {
            (completed + 1) as u32
        } else {
            completed
        };
        let next2 = if date == next_inst {
            spec_interval_date(date, p.due_day, p.tpy)
        } else {
            next_inst
        };
        lemma_project_no_init(p, date.spec_succ(), next2, completed2, skip2, (fuel - 1) as nat);
        let rest = spec_project(p, date.spec_succ(), next2, completed2, skip2, (fuel - 1) as nat)
            ->Some_0;
        let whole = spec_project(p, date, next_inst, completed, skip, fuel)->Some_0;
        assert forall|k: int| 0 <= k < whole.len() implies (#[trigger] whole[k]).actions.initialization is None by {
            if k == 0 {
                assert(whole[0] == entry);
            } else {
                assert(whole[k] == rest[k - 1]);
            }
        }
    }
}

/// No scheduled day precedes the day the projection started from.
proof fn lemma_project_dates(
    p: ProjParams,
    d: Date,
    next_inst: Date,
    completed: u32,
    skip: u32,
    fuel: nat,
)
    requires
        spec_project(p, d, next_inst, completed, skip, fuel) is Some,
        valid_ymd(d.y(), d.m(), d.d()),
        d.y() + fuel <= crate::dates::YEAR_CEIL,
    ensures
        forall|k: int|
            0 <= k < spec_project(p, d, next_inst, completed, skip, fuel)->Some_0.len()
                ==> date_le(d, (#[trigger] spec_project(p, d, next_inst, completed, skip, fuel)->Some_0[k]).date),
    decreases fuel,
{
    if completed != p.planned {
        let entry = spec_proj_entry(p, d, next_inst, skip);
        let skip2: u32 = if d == next_inst && skip > 0 {
            (skip - 1) as u32
        } else {
            skip
        };
        let completed2: u32 = if d == next_inst && skip == 0 {
            (completed + 1) as u32
        } else {
            completed
        };
        let next2 = if d == next_inst {
            spec_interval_date(d, p.due_day, p.tpy)
        } else {
            next_inst
        };
        d.lemma_succ_components();
        crate::dates::lemma_next_ymd_lt(d, d.spec_succ());
        lemma_project_dates(p, d.spec_succ(), next2, completed2, skip2, (fuel - 1) as nat);
        let rest = spec_project(p, d.spec_succ(), next2, completed2, skip2, (fuel - 1) as nat)
            ->Some_0;
        let whole = spec_project(p, d, next_inst, completed, skip, fuel)->Some_0;
        assert forall|k: int| 0 <= k < whole.len() implies date_le(
            d,
            (#[trigger] whole[k]).date,
        ) by {
            if k == 0 {
                assert(whole[0] == entry);
            } else {
                assert(whole[k] == rest[k - 1]);
                assert(date_le(d.spec_succ(), rest[k - 1].date));
            }
        }
    }
}

/// A finished run reports its first day first and ends on a repayment day
/// of the queue.
proof fn lemma_run_trace(
    s: CurrentCalculationState,
    q: Seq<ScheduledDayV>,
    ev: Seq<(Date, Seq<LoanEvent>)>,
    i: nat,
    j: nat,
)
    requires
        i <= q.len(),
    ensures
        match spec_run(s, q, ev, i, j) {
            RunOutcome::Finished { dailys, state } => dailys.len() >= 1 && dailys[0].date
                == q[i as int].date && (exists|k: int|
                #![all_triggers]
                i <= k < q.len() && dailys.last().date == q[k].date && q[k].actions.installment
                    == Some(InstallmentType::Repayment)),
            _ => true,
        },
    decreases q.len() - i,
{
    if i < q.len() {
        let entry = q[i as int];
        match spec_run(s, q, ev, i, j) {
            RunOutcome::Finished { dailys, state } => {
                let merged_ex: Seq<i64> = if j < ev.len() && ev[j as int].0 == entry.date {
                    crate::calculator::extras_of_events(ev[j as int].1)->Some_0
                } else {
                    Seq::empty()
                };
                let j2: nat = if j < ev.len() && ev[j as int].0 == entry.date {
                    (j + 1) as nat
                } else {
                    j
                };
                let a = spec_merged_bundle(entry.actions, merged_ex);
                let st = spec_day_step(s, entry.date, a)->Some_0;
                lemma_day_step_basic(s, entry.date, a);
                if st.finished {
                    assert(dailys == seq![st.daily]);
                    assert(dailys.last() == st.daily);
                } else {
                    lemma_run_trace(st.state, q, ev, (i + 1) as nat, j2);
                    match spec_run(st.state, q, ev, (i + 1) as nat, j2) {
                        RunOutcome::Finished { dailys: rest, state: fs } => {
                            assert(dailys == seq![st.daily] + rest);
                            assert(dailys[0] == st.daily);
                            assert(dailys.last() == rest.last());
                        },
                        _ => {
                            assert(false);
                        },
                    }
                }
            },
            _ => {},
        }
    }
}

/// A finished run keeps the plan and never completes more terms than it.
proof fn lemma_run_counters(
    s: CurrentCalculationState,
    q: Seq<ScheduledDayV>,
    ev: Seq<(Date, Seq<LoanEvent>)>,
    i: nat,
    j: nat,
)
    requires
        i <= q.len(),
        s.completed_repayment_terms + count_rep(q.skip(i as int)) <= s.planned_repayment_terms,
    ensures
        match spec_run(s, q, ev, i, j) {
            RunOutcome::Finished { dailys, state } => state.planned_repayment_terms
                == s.planned_repayment_terms && state.completed_repayment_terms
                <= s.planned_repayment_terms,
            _ => true,
        },
    decreases q.len() - i,
{
    if i < q.len() {
        let entry = q[i as int];
        match spec_run(s, q, ev, i, j) {
            RunOutcome::Finished { dailys, state } => {
                let merged_ex: Seq<i64> = if j < ev.len() && ev[j as int].0 == entry.date {
                    crate::calculator::extras_of_events(ev[j as int].1)->Some_0
                } else {
                    Seq::empty()
                };
                let j2: nat = if j < ev.len() && ev[j as int].0 == entry.date {
                    (j + 1) as nat
                } else {
                    j
                };
                let a = spec_merged_bundle(entry.actions, merged_ex);
                let st = spec_day_step(s, entry.date, a)->Some_0;
                lemma_count_rep_skip_unfold(q, i as int);
                lemma_count_rep_nonneg(q.skip(i as int + 1));
                lemma_day_step_basic(s, entry.date, a);
                if !st.finished {
                    lemma_run_counters(st.state, q, ev, (i + 1) as nat, j2);
                }
            },
            _ => {},
        }
    }
}

/// A finished run over disbursement-free days disburses nothing.
proof fn lemma_run_disbursed(
    s: CurrentCalculationState,
    q: Seq<ScheduledDayV>,
    ev: Seq<(Date, Seq<LoanEvent>)>,
    i: nat,
    j: nat,
)
    requires
        i <= q.len(),
        forall|k: int| i <= k < q.len() ==> (#[trigger] q[k]).actions.initialization is None,
    ensures
        match spec_run(s, q, ev, i, j) {
            RunOutcome::Finished { dailys, state } => sum_disbursed(dailys) == 0,
            _ => true,
        },
    decreases q.len() - i,
{
    if i < q.len() {
        let entry = q[i as int];
        match spec_run(s, q, ev, i, j) {
            RunOutcome::Finished { dailys, state } => {
                let merged_ex: Seq<i64> = if j < ev.len() && ev[j as int].0 == entry.date {
                    crate::calculator::extras_of_events(ev[j as int].1)->Some_0
                } else {
                    Seq::empty()
                };
                let j2: nat = if j < ev.len() && ev[j as int].0 == entry.date {
                    (j + 1) as nat
                } else {
                    j
                };
                let a = spec_merged_bundle(entry.actions, merged_ex);
                let st = spec_day_step(s, entry.date, a)->Some_0;
                lemma_day_step_basic(s, entry.date, a);
                if st.finished {
                    assert(dailys == seq![st.daily]);
                    assert(dailys.drop_first() =~= Seq::<DailyV>::empty());
                    assert(sum_disbursed(Seq::<DailyV>::empty()) == 0);
                } else {
                    lemma_run_disbursed(st.state, q, ev, (i + 1) as nat, j2);
                    match spec_run(st.state, q, ev, (i + 1) as nat, j2) {
                        RunOutcome::Finished { dailys: rest, state: fs } => {
                            assert(dailys == seq![st.daily] + rest);
                            assert(dailys[0] == st.daily);
                            assert(dailys.drop_first() =~= rest);
                        },
                        _ => {
                            assert(false);
                        },
                    }
                }
            },
            _ => {},
        }
    }
}

/// A computation that succeeds on a well-formed timeline reports the
/// initialization's principal as the total loan, is disbursed on the
/// timeline's first date, ends strictly after the disbursement, and never
/// completes more terms than were planned. (That every computation
/// terminates is enforced by construction: every loop of the engine carries
/// a decreasing measure.)
#[verifier::rlimit(100)]
pub proof fn lemma_compute_success_properties(t: Seq<(Date, Seq<LoanEvent>)>)
    requires
        crate::calculator::timeline_wf(t),
        valid_ymd(t[0].0.y(), t[0].0.m(), t[0].0.d()),
        spec_compute(t) is Ok,
    ensures
        ({
            let res = spec_compute(t)->Ok_0;
            let li = t[0].1[0]->Initial_0;
            &&& t[0].1[0] is Initial
            &&& res.total_loan == li.loan
            &&& res.disbursement_date == t[0].0
            &&& res.end_date != res.disbursement_date
            &&& li.terms <= i32::MAX ==> 0 <= res.completed_terms <= res.planned_terms
        }),
{
    let date0 = t[0].0;
    let evs0 = t[0].1;
    let li = evs0[0]->Initial_0;
    let st0 = crate::calculator::spec_initial_state(date0, li);
    let qq = crate::projector::spec_project_all(li.loan, li.administration_fee, date0, st0)
        ->Some_0;
    let p = crate::projector::spec_params_of(st0);
    let fuel = crate::projector::spec_proj_fuel(st0.planned_repayment_terms);
    let day0 = crate::projector::spec_disbursement_entry(li.loan, li.administration_fee, date0);
    let rest = spec_project(p, date0.spec_succ(), st0.computed_installment_date, 0, 0, fuel)
        ->Some_0;
    assert(qq == seq![day0] + rest);
    assert(qq[0] == day0);
    assert(qq.len() == 1 + rest.len());

    // The first step of the run: the disbursement day.
    let entry = qq[0];
    if 1 < t.len() {
        crate::dates::lemma_date_order(t[1].0, date0);
        assert(date_lt(t[0].0, t[1].0));
    }
    let a = spec_merged_bundle(entry.actions, Seq::empty());
    assert(entry.actions.extra_installments + Seq::<i64>::empty()
        =~= entry.actions.extra_installments);
    assert(a == entry.actions);
    let st = spec_day_step(st0, entry.date, a)->Some_0;
    lemma_day_step_basic(st0, entry.date, a);
    assert(!st.finished);
    match spec_run(st0, qq, t, 0, 1) {
        RunOutcome::Finished { dailys, state } => {
            let restrun = spec_run(st.state, qq, t, 1, 1);

            // The projection's per-entry facts, lifted to the queue.
            date0.lemma_succ_components();
            crate::dates::lemma_next_ymd_lt(date0, date0.spec_succ());
            lemma_project_no_init(
                p,
                date0.spec_succ(),
                st0.computed_installment_date,
                0,
                0,
                fuel,
            );
            lemma_project_dates(p, date0.spec_succ(), st0.computed_installment_date, 0, 0, fuel);
            lemma_project_count(p, date0.spec_succ(), st0.computed_installment_date, 0, 0, fuel);
            assert(forall|k: int| 1 <= k < qq.len() ==> #[trigger] qq[k] == rest[k - 1]);

            // The disbursed column: the principal on the first day, nothing
            // after it.
            lemma_run_disbursed(st.state, qq, t, 1, 1);
            match restrun {
                RunOutcome::Finished { dailys: ds2, state: fs2 } => {
                    assert(dailys == seq![st.daily] + ds2);
                    assert(dailys[0] == st.daily);
                    assert(dailys.drop_first() =~= ds2);
                    assert(sum_disbursed(dailys) == li.loan);
                },
                _ => {
                    assert(false);
                },
            }

            // The trace: first report on the disbursement date, last report
            // on a repayment day strictly after it.
            lemma_run_trace(st.state, qq, t, 1, 1);
            match restrun {
                RunOutcome::Finished { dailys: ds2, state: fs2 } => {
                    let k = choose|k: int|
                        #![all_triggers]
                        1 <= k < qq.len() && ds2.last().date == qq[k].date
                            && qq[k].actions.installment == Some(InstallmentType::Repayment);
                    assert(date_le(date0.spec_succ(), rest[k - 1].date));
                    assert(date_lt(date0, qq[k].date));
                    crate::dates::lemma_date_order(date0, qq[k].date);
                    assert(dailys.last() == ds2.last());
                    assert(dailys.last().date != date0);
                },
                _ => {
                    assert(false);
                },
            }

            // The counters: completed stays within the plan.
            assert(qq.skip(0) =~= qq);
            assert(count_rep(qq) == count_rep(rest) + (if qq[0].actions.installment == Some(
                InstallmentType::Repayment,
            ) {
                1int
            } else {
                0
            })) by {
                lemma_count_rep_skip_unfold(qq, 0);
                assert(qq.skip(1) =~= rest);
            }
            lemma_run_counters(st0, qq, t, 0, 1);

            // From the final state to the aggregated report.
            let agg = crate::reports::spec_aggregate(
                dailys,
                state.planned_repayment_terms,
                state.completed_repayment_terms,
            );
            lemma_sums_total_loan(dailys);
            assert(spec_compute(t)->Ok_0 == agg->Some_0);
        },
        _ => {
            assert(false);
        },
    }
}

/// A due day that does not exist in the target month resolves to the last
/// valid day of that month: the calendar clamps, it never rounds into the
/// next month.
pub proof fn lemma_due_day_clamps(cy: int, cm: int, cd: int, due_day: int, target: int)
    requires
        1 <= target <= 12,
        1 <= due_day <= 31,
    ensures
        ({
            let (y, m, d) = spec_installment_ymd(cy, cm, cd, due_day, target);
            &&& m == target
            &&& due_day > days_in_month(y, target) ==> d == days_in_month(y, target)
            &&& due_day <= days_in_month(y, target) ==> d == due_day
        }),
{
}

} // verus!
